//! Host page sizes and page rounding.

use vstd::prelude::*;

verus! {

/// The largest page size of a 32-bit or x86_64 Android target.
pub const MAX_PAGE_SIZE: usize = 4096;

/// The largest page size of an AArch64 Android target.
pub const MAX_PAGE_SIZE_AARCH64: usize = 65536;

/// `address` rounded down to a multiple of `page`.
pub open spec fn page_floor(address: int, page: int) -> int {
    address - address % page
}

/// `address` rounded up to a multiple of `page`.
pub open spec fn page_ceil(address: int, page: int) -> int {
    page_floor(address + page - 1, page)
}

/// Whether `address` is a multiple of `page`.
pub open spec fn page_aligned(address: int, page: int) -> bool {
    address % page == 0
}

/// A page size: a positive number of bytes.
#[derive(Clone, Copy, Debug)]
pub struct PageSize {
    bytes: usize,
}

impl View for PageSize {
    type V = int;

    closed spec fn view(&self) -> int {
        self.bytes as int
    }
}

/// Asks the operating system for its page size through `region::page::size`.
/// Nothing is claimed of the number that comes back.
#[verifier::external_body]
fn os_page_size() -> (size: usize) {
    region::page::size()
}

impl PageSize {
    #[verifier::type_invariant]
    closed spec fn positive(self) -> bool {
        self.bytes > 0
    }

    /// A page size of `bytes` bytes, unless `bytes` is zero.
    pub fn new(bytes: usize) -> (page: Option<PageSize>)
        ensures
            bytes == 0 <==> page is None,
            page matches Some(p) ==> p@ == bytes,
    {
        if bytes == 0 {
            None
        } else {
            Some(PageSize { bytes })
        }
    }

    /// The page size of the machine this runs on, unless the operating system
    /// reports none.
    pub fn host() -> (page: Option<PageSize>) {
        PageSize::new(os_page_size())
    }

    /// The size in bytes.
    pub fn bytes(&self) -> (bytes: usize)
        ensures
            bytes == self@,
            bytes > 0,
    {
        proof {
            use_type_invariant(self);
        }
        self.bytes
    }

    /// Rounds `address` down to a page boundary.
    pub fn floor(&self, address: usize) -> (floor: usize)
        ensures
            floor == page_floor(address as int, self@),
            floor <= address,
            address - floor < self@,
            page_aligned(floor as int, self@),
    {
        proof {
            use_type_invariant(self);
            lemma_floor_bounds(address as int, self@);
        }
        let rest: usize = address % self.bytes;
        address - rest
    }

    /// Rounds `address` up to a page boundary, or reports that the boundary
    /// lies beyond the address space.
    pub fn ceil(&self, address: usize) -> (ceil: Option<usize>)
        ensures
            page_ceil(address as int, self@) <= usize::MAX <==> ceil is Some,
            ceil matches Some(c) ==> {
                &&& c == page_ceil(address as int, self@)
                &&& address <= c
                &&& c - address < self@
                &&& page_aligned(c as int, self@)
            },
    {
        proof {
            use_type_invariant(self);
            lemma_ceil_bounds(address as int, self@);
        }
        let rest: usize = address % self.bytes;
        if rest == 0 {
            proof {
                lemma_ceil_of_aligned(address as int, self@);
            }
            Some(address)
        } else {
            let gap: usize = self.bytes - rest;
            proof {
                lemma_ceil_of_unaligned(address as int, self@);
            }
            if address > usize::MAX - gap {
                None
            } else {
                Some(address + gap)
            }
        }
    }
}

/// Rounding down stays within one page below the address and lands on a
/// boundary.
pub proof fn lemma_floor_bounds(address: int, page: int)
    requires
        page > 0,
    ensures
        page_floor(address, page) <= address,
        address - page_floor(address, page) < page,
        page_aligned(page_floor(address, page), page),
        address >= 0 ==> page_floor(address, page) >= 0,
{
    vstd::arithmetic::div_mod::lemma_fundamental_div_mod(address, page);
    vstd::arithmetic::div_mod::lemma_mod_multiples_basic(address / page, page);
    assert((address / page) * page == page * (address / page)) by (nonlinear_arith);
}

/// Rounding up stays within one page above the address and lands on a
/// boundary.
pub proof fn lemma_ceil_bounds(address: int, page: int)
    requires
        page > 0,
    ensures
        address <= page_ceil(address, page),
        page_ceil(address, page) - address < page,
        page_aligned(page_ceil(address, page), page),
{
    lemma_floor_bounds(address + page - 1, page);
}

/// An aligned address is its own ceiling.
pub proof fn lemma_ceil_of_aligned(address: int, page: int)
    requires
        page > 0,
        address % page == 0,
    ensures
        page_ceil(address, page) == address,
{
    lemma_ceil_bounds(address, page);
    lemma_aligned_gap(address, page_ceil(address, page), page);
}

/// An unaligned address is rounded up by what it lacks to the next boundary.
pub proof fn lemma_ceil_of_unaligned(address: int, page: int)
    requires
        page > 0,
        address % page != 0,
    ensures
        page_ceil(address, page) == address + (page - address % page),
{
    lemma_ceil_bounds(address, page);
    lemma_floor_bounds(address, page);
    let low = page_floor(address, page);
    let high = page_ceil(address, page);
    assert((low + page) % page == 0) by {
        vstd::arithmetic::div_mod::lemma_mod_add_multiples_vanish(low, page);
    }
    lemma_aligned_gap(low, high, page);
    lemma_aligned_gap(low + page, high, page);
}

/// Two boundaries, the second not below the first, are equal or at least a
/// page apart.
pub proof fn lemma_aligned_gap(low: int, high: int, page: int)
    requires
        page > 0,
        low % page == 0,
        high % page == 0,
        low <= high,
    ensures
        high == low || high >= low + page,
{
    vstd::arithmetic::div_mod::lemma_fundamental_div_mod(low, page);
    vstd::arithmetic::div_mod::lemma_fundamental_div_mod(high, page);
    let a = low / page;
    let b = high / page;
    if a < b {
        assert(page * b >= page * a + page) by (nonlinear_arith)
            requires
                a < b,
                page > 0,
        ;
    } else if b < a {
        assert(page * b < page * a) by (nonlinear_arith)
            requires
                b < a,
                page > 0,
        ;
    }
}

} // verus!
