//! Address regions.
//!
//! A [`Region`] is a half-open range of machine addresses. Regions describe
//! the memory a process may touch: its flash segment, its RAM segment, and
//! any shared segments. All isolation statements in the crate are phrased
//! over region membership.

use vstd::prelude::*;

verus! {

/// A half-open range of addresses, `[start, start + size)`.
#[derive(Clone, Copy, PartialEq, Eq, Structural, Debug)]
pub struct Region {
    pub start: usize,
    pub size: usize,
}

impl Region {
    /// A region is well formed when its end does not wrap around the
    /// address space.
    pub open spec fn wf(self) -> bool {
        self.start + self.size <= usize::MAX
    }

    /// Whether `addr` lies inside the region.
    pub open spec fn spec_contains(self, addr: int) -> bool {
        self.start <= addr < self.start + self.size
    }

    /// The first address past the region.
    pub open spec fn spec_end(self) -> int {
        self.start + self.size
    }

    pub fn new(start: usize, size: usize) -> (r: Region)
        requires
            start + size <= usize::MAX,
        ensures
            r.start == start,
            r.size == size,
            r.wf(),
    {
        Region { start, size }
    }

    /// Runtime membership test, equal to [`Region::spec_contains`].
    pub fn contains(&self, addr: usize) -> (r: bool)
        requires
            self.wf(),
        ensures
            r == self.spec_contains(addr as int),
    {
        self.start <= addr && addr - self.start < self.size
    }

    /// Whether `[ptr, ptr + len)` lies entirely inside the region.
    /// An empty range is inside wherever it points within the region's
    /// bounds; a range that would wrap the address space is never inside.
    pub open spec fn spec_contains_range(self, ptr: int, len: int) -> bool {
        self.start <= ptr && ptr + len <= self.start + self.size
    }

    /// Runtime range check, equal to [`Region::spec_contains_range`].
    pub fn contains_range(&self, ptr: usize, len: usize) -> (r: bool)
        requires
            self.wf(),
        ensures
            r == self.spec_contains_range(ptr as int, len as int),
    {
        if self.start <= ptr && ptr - self.start <= self.size {
            len <= self.size - (ptr - self.start)
        } else {
            false
        }
    }

    /// Two regions share no address.
    pub open spec fn spec_disjoint(self, other: Region) -> bool {
        self.start + self.size <= other.start || other.start + other.size <= self.start
    }
}

} // verus!
