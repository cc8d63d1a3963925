//! Page-granular memory cache with partial-read reconciliation.
//!
//! Memory is a flat 64-bit address space organized into fixed-size,
//! address-aligned pages. A page is built from one full-page read plus
//! iterative follow-up reads for whatever the adapter left unresolved;
//! bytes the adapter reported unreadable stay unknown. Reads over a range
//! stitch together whichever pages are cached, with explicit gaps --
//! a range is never silently truncated.

use vstd::prelude::*;

verus! {

broadcast use vstd::std_specs::hash::group_hash_axioms;

/// Size of one memory page in bytes.
pub const PAGE_SIZE: u64 = 4096;

/// Whether `addr` is the first address of a page.
pub open spec fn page_aligned(addr: u64) -> bool {
    addr as int % PAGE_SIZE as int == 0
}

/// The first address of the page containing `addr`.
pub open spec fn spec_page_base(addr: u64) -> u64 {
    (addr as int - addr as int % PAGE_SIZE as int) as u64
}

/// Computes the first address of the page containing `addr`.
pub fn page_base(addr: u64) -> (b: u64)
    ensures
        b == spec_page_base(addr),
        page_aligned(b),
        b <= addr < b + PAGE_SIZE,
{
    proof {
        vstd::arithmetic::div_mod::lemma_fundamental_div_mod(addr as int, PAGE_SIZE as int);
        vstd::arithmetic::div_mod::lemma_mod_bound(addr as int, PAGE_SIZE as int);
        vstd::arithmetic::div_mod::lemma_mod_mod(addr as int, PAGE_SIZE as int, 1);
        assert((addr as int - addr as int % PAGE_SIZE as int) % PAGE_SIZE as int == 0) by {
            vstd::arithmetic::div_mod::lemma_sub_mod_noop(
                addr as int,
                addr as int % PAGE_SIZE as int,
                PAGE_SIZE as int,
            );
            vstd::arithmetic::div_mod::lemma_mod_self_0(PAGE_SIZE as int);
            vstd::arithmetic::div_mod::lemma_small_mod(0nat, PAGE_SIZE as nat);
            vstd::arithmetic::div_mod::lemma_mod_twice(addr as int, PAGE_SIZE as int);
        }
    }
    addr - addr % PAGE_SIZE
}

/// One cached page: each byte either known or marked unknown because the
/// adapter reported it unreadable.
#[derive(Debug, PartialEq)]
pub struct MemoryPage {
    cells: Vec<Option<u8>>,
}

impl MemoryPage {
    /// The page's bytes, one entry per address offset.
    pub closed spec fn cells_seq(self) -> Seq<Option<u8>> {
        self.cells@
    }

    /// Well-formed: exactly one entry per byte of the page.
    pub open spec fn wf(self) -> bool {
        self.cells_seq().len() == PAGE_SIZE
    }

    /// The byte at a page offset, or `None` where it is unknown.
    pub fn byte(&self, offset: usize) -> (r: Option<u8>)
        requires
            self.wf(),
            offset < PAGE_SIZE,
        ensures
            r == self.cells_seq()[offset as int],
    {
        self.cells[offset]
    }
}

/// A follow-up read needed to finish building a page.
#[derive(Debug, PartialEq, Eq, Structural, Copy, Clone)]
pub struct MemoryReadRequest {
    pub address: u64,
    pub count: u64,
}

/// `bytes`, each wrapped as a known cell.
pub open spec fn known_cells(bytes: Seq<u8>) -> Seq<Option<u8>> {
    bytes.map_values(|b: u8| Some(b))
}

/// `count` unknown cells.
pub open spec fn unknown_cells(count: int) -> Seq<Option<u8>> {
    Seq::new(count as nat, |i: int| None::<u8>)
}

/// Accumulates one page from an initial full-page read and follow-up reads
/// of whatever remains unresolved. The build is a plain work loop: while
/// bytes are missing, `next_request` names the next read to issue, and the
/// response's known and unreadable spans are appended in address order.
pub struct MemoryPageBuilder {
    base: u64,
    cells: Vec<Option<u8>>,
}

impl MemoryPageBuilder {
    /// The page address this builder fills.
    pub closed spec fn base_spec(self) -> u64 {
        self.base
    }

    /// The cells resolved so far, from the page's first byte on.
    pub closed spec fn filled(self) -> Seq<Option<u8>> {
        self.cells@
    }

    pub open spec fn wf(self) -> bool {
        page_aligned(self.base_spec()) && self.filled().len() <= PAGE_SIZE
    }

    /// Whether every byte of the page is resolved.
    pub open spec fn complete(self) -> bool {
        self.filled().len() == PAGE_SIZE
    }

    /// Starts building the page at `base`.
    pub fn new(base: u64) -> (r: Self)
        requires
            page_aligned(base),
        ensures
            r.wf(),
            r.base_spec() == base,
            r.filled().len() == 0,
    {
        MemoryPageBuilder { base, cells: Vec::new() }
    }

    /// Reads the base address without consuming the builder.
    pub fn base_address(&self) -> (b: u64)
        ensures
            b == self.base_spec(),
    {
        self.base
    }

    /// The next read to issue: the whole unresolved remainder of the page,
    /// or nothing once the page is complete.
    pub fn next_request(&self) -> (r: Option<MemoryReadRequest>)
        requires
            self.wf(),
        ensures
            r == if self.complete() {
                None::<MemoryReadRequest>
            } else {
                Some(
                    MemoryReadRequest {
                        address: (self.base_spec() + self.filled().len()) as u64,
                        count: (PAGE_SIZE - self.filled().len()) as u64,
                    },
                )
            },
    {
        let len = self.cells.len() as u64;
        if len == PAGE_SIZE {
            None
        } else {
            proof {
                assert(self.base_spec() as int % PAGE_SIZE as int == 0);
                assert(self.base_spec() + PAGE_SIZE <= u64::MAX + 1) by (nonlinear_arith)
                    requires
                        page_aligned(self.base_spec()),
                        PAGE_SIZE == 4096,
                ;
            }
            Some(MemoryReadRequest { address: self.base + len, count: PAGE_SIZE - len })
        }
    }

    /// Appends bytes the adapter returned, in address order; anything past
    /// the end of the page is ignored.
    pub fn known(&mut self, bytes: &Vec<u8>)
        requires
            old(self).wf(),
        ensures
            final(self).wf(),
            final(self).base_spec() == old(self).base_spec(),
            final(self).filled() == old(self).filled() + known_cells(
                bytes@.take(
                    if bytes@.len() <= PAGE_SIZE - old(self).filled().len() {
                        bytes@.len() as int
                    } else {
                        PAGE_SIZE - old(self).filled().len()
                    },
                ),
            ),
    {
        let ghost prior = self.cells@;
        let mut i: usize = 0;
        while i < bytes.len() && self.cells.len() < PAGE_SIZE as usize
            invariant
                self.base == old(self).base,
                i <= bytes@.len(),
                self.cells@ == prior + known_cells(bytes@.take(i as int)),
                self.cells@.len() <= PAGE_SIZE,
                i <= PAGE_SIZE - prior.len(),
                self.cells@.len() == prior.len() + i,
            decreases bytes@.len() - i,
        {
            self.cells.push(Some(bytes[i]));
            proof {
                assert(self.cells@ =~= prior + known_cells(bytes@.take(i + 1)));
            }
            i += 1;
        }
        proof {
            let cap = if bytes@.len() <= PAGE_SIZE - prior.len() {
                bytes@.len() as int
            } else {
                PAGE_SIZE - prior.len()
            };
            assert(i as int == cap);
            assert(self.cells@ =~= prior + known_cells(bytes@.take(cap)));
        }
    }

    /// Appends a span the adapter reported unreadable; anything past the
    /// end of the page is ignored.
    pub fn unknown(&mut self, count: u64)
        requires
            old(self).wf(),
        ensures
            final(self).wf(),
            final(self).base_spec() == old(self).base_spec(),
            final(self).filled() == old(self).filled() + unknown_cells(
                if count <= PAGE_SIZE - old(self).filled().len() {
                    count as int
                } else {
                    PAGE_SIZE - old(self).filled().len()
                },
            ),
    {
        let ghost prior = self.cells@;
        let mut i: u64 = 0;
        while i < count && self.cells.len() < PAGE_SIZE as usize
            invariant
                self.base == old(self).base,
                i <= count,
                self.cells@ == prior + unknown_cells(i as int),
                self.cells@.len() <= PAGE_SIZE,
                i <= PAGE_SIZE - prior.len(),
                self.cells@.len() == prior.len() + i,
            decreases count - i,
        {
            self.cells.push(None);
            proof {
                assert(self.cells@ =~= prior + unknown_cells(i + 1));
            }
            i += 1;
        }
        proof {
            let cap = if count <= PAGE_SIZE - prior.len() {
                count as int
            } else {
                PAGE_SIZE - prior.len()
            };
            assert(i as int == cap);
            assert(self.cells@ =~= prior + unknown_cells(cap));
        }
    }

    /// Finishes the build, yielding the page address and the page.
    pub fn build(self) -> (r: (u64, MemoryPage))
        requires
            self.wf(),
            self.complete(),
        ensures
            r.0 == self.base_spec(),
            page_aligned(r.0),
            r.1.wf(),
            r.1.cells_seq() == self.filled(),
    {
        (self.base, MemoryPage { cells: self.cells })
    }
}

/// The page cache: resolved pages keyed by page address.
pub struct Memory {
    pages: std::collections::HashMap<u64, MemoryPage>,
}

impl Memory {
    /// The cached pages by page address.
    pub closed spec fn pages_map(self) -> Map<u64, MemoryPage> {
        self.pages@
    }

    /// Well-formed: every key is page-aligned and every page complete.
    pub open spec fn wf(self) -> bool {
        forall|b: u64| #[trigger]
            self.pages_map().dom().contains(b) ==> page_aligned(b) && self.pages_map()[b].wf()
    }

    /// The byte the cache knows at `addr`: `None` when the page is absent
    /// or the byte is unreadable.
    pub open spec fn spec_byte(self, addr: u64) -> Option<u8> {
        let base = spec_page_base(addr);
        if self.pages_map().dom().contains(base) {
            self.pages_map()[base].cells_seq()[addr - base]
        } else {
            None
        }
    }

    pub fn new() -> (r: Self)
        ensures
            r.wf(),
            r.pages_map().dom() == Set::<u64>::empty(),
    {
        Memory { pages: std::collections::HashMap::new() }
    }

    /// Drops every cached page. Used after anything that could have
    /// changed memory contents: no partial invalidation is attempted.
    pub fn clear(&mut self)
        ensures
            final(self).wf(),
            final(self).pages_map().dom() == Set::<u64>::empty(),
    {
        self.pages.clear();
    }

    /// Whether the page at `base` is cached.
    pub fn has_page(&self, base: u64) -> (r: bool)
        ensures
            r == self.pages_map().dom().contains(base),
    {
        self.pages.contains_key(&base)
    }

    /// Inserts a completed page.
    pub fn insert_page(&mut self, base: u64, page: MemoryPage)
        requires
            old(self).wf(),
            page_aligned(base),
            page.wf(),
        ensures
            final(self).wf(),
            final(self).pages_map() == old(self).pages_map().insert(base, page),
    {
        self.pages.insert(base, page);
    }

    /// The bytes of the inclusive address range, one entry per address:
    /// the full range is always produced, with an explicit `None` for every
    /// byte that is unknown or whose page is absent.
    #[verifier::loop_isolation(false)]
    pub fn read_range(&self, start: u64, end: u64) -> (r: Vec<Option<u8>>)
        requires
            self.wf(),
            start <= end,
            end - start < usize::MAX,
        ensures
            r@.len() == end - start + 1,
            forall|i: int| 0 <= i < r@.len() ==> r@[i] == self.spec_byte((start + i) as u64),
    {
        let count = (end - start) as usize + 1;
        let mut r: Vec<Option<u8>> = Vec::new();
        let mut i: usize = 0;
        while i < count
            invariant
                i <= count,
                r@.len() == i,
                forall|j: int| 0 <= j < i ==> r@[j] == self.spec_byte((start + j) as u64),
            decreases count - i,
        {
            let addr = start + i as u64;
            let base = page_base(addr);
            let cell = match self.pages.get(&base) {
                Some(page) => page.byte((addr - base) as usize),
                None => None,
            };
            r.push(cell);
            i += 1;
        }
        r
    }
}

} // verus!
