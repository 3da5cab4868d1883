//! Hardware memory-protection configuration.
//!
//! A process may only touch the regions configured for it; the protection
//! unit traps everything else into the fault path. Hardware units come in
//! chip-specific flavors — a [`MpuVariant`] gives the two numbers the
//! kernel needs: how many regions the unit has and the alignment
//! granularity regions must obey. [`configure_regions`] rounds each
//! requested region outward to that granularity and refuses — before any
//! process could run mis-isolated — when the hardware has fewer regions
//! than the process needs.

use vstd::prelude::*;

use vstd::arithmetic::div_mod::{lemma_fundamental_div_mod, lemma_mod_bound, lemma_mod_multiples_basic};

use crate::mem::Region;

verus! {

/// What the process may do with a protected region.
#[derive(Clone, Copy, PartialEq, Eq, Structural, Debug)]
pub enum Permissions {
    /// Code: read and execute, never write.
    ReadExecute,
    /// Data: read and write.
    ReadWrite,
    /// Shared data: read only.
    ReadOnly,
}

/// One region of the address space together with what the process may do
/// inside it.
#[derive(Clone, Copy, PartialEq, Eq, Structural, Debug)]
pub struct ProtectedRegion {
    pub region: Region,
    pub perms: Permissions,
}

/// Why a protection configuration was refused.
#[derive(Clone, Copy, PartialEq, Eq, Structural, Debug)]
pub enum ConfigError {
    /// The hardware has fewer regions than the process needs. A hard
    /// resource limit: the caller must fail the process, not retry.
    TooManyRegions,
}

/// A chip-specific protection-unit flavor: the kernel is polymorphic over
/// these, and a board picks one concrete variant at build time.
pub trait MpuVariant {
    /// How many disjoint regions the unit can hold.
    fn num_regions() -> (r: usize)
        ensures
            r >= 1,
    ;

    /// Region bases and sizes must be multiples of this.
    fn granularity() -> (r: usize)
        ensures
            r >= 1,
    ;
}

/// The protection unit of an Arm Cortex-M3 core: eight regions, 32-byte
/// granularity. The type carries no data; it only selects the variant at
/// build time.
pub enum CortexM3 {
    /// The sole value; never inspected.
    Tag,
}

impl MpuVariant for CortexM3 {
    fn num_regions() -> (r: usize) {
        8
    }

    fn granularity() -> (r: usize) {
        32
    }
}

/// A programmed protection-unit state: the regions the running process may
/// touch, already aligned to the hardware granularity.
pub struct MpuConfig {
    pub regions: Vec<ProtectedRegion>,
}

impl MpuConfig {
    /// Whether the configuration lets the process touch `addr`.
    pub open spec fn spec_allows(self, addr: int) -> bool {
        exists|i: int|
            0 <= i < self.regions@.len() && (#[trigger] self.regions@[i]).region.spec_contains(addr)
    }
}

/// `x` is a multiple of the granularity `g`.
pub open spec fn aligned(x: int, g: int) -> bool {
    x % g == 0
}

/// An aligned region covering `[start, start + size)`: the base rounded
/// down to `g`, the end rounded up.
pub open spec fn spec_aligned_region(r: Region, g: int) -> Region {
    let astart = (r.start / (g as usize)) as int * g;
    let aend = (((r.start + r.size + g - 1) as int) / g) * g;
    Region { start: astart as usize, size: (aend - astart) as usize }
}

/// Programs a protection configuration for `requested` on a unit with
/// `max_regions` regions of granularity `granularity`. Succeeds exactly
/// when the unit has enough regions; each configured region is aligned and
/// covers the region asked for, so the process loses no access it was
/// promised — it may at most reach the rounding slack at the edges.
#[verifier::loop_isolation(false)]
pub fn configure_regions(
    requested: &Vec<ProtectedRegion>,
    max_regions: usize,
    granularity: usize,
) -> (r: Result<MpuConfig, ConfigError>)
    requires
        granularity >= 1,
        forall|i: int|
            0 <= i < requested@.len() ==> (#[trigger] requested@[i]).region.start
                + requested@[i].region.size + granularity <= usize::MAX,
    ensures
        r is Ok <==> requested@.len() <= max_regions,
        r is Err ==> r == Err::<MpuConfig, ConfigError>(ConfigError::TooManyRegions),
        r matches Ok(c) ==> {
            &&& c.regions@.len() == requested@.len()
            &&& forall|i: int|
                0 <= i < requested@.len() ==> (#[trigger] c.regions@[i]).perms == requested@[
                    i
                ].perms
            &&& forall|i: int|
                0 <= i < requested@.len() ==> (#[trigger] c.regions@[i]).region
                    == spec_aligned_region(requested@[i].region, granularity as int)
            &&& forall|i: int|
                0 <= i < requested@.len() ==> aligned(
                    (#[trigger] c.regions@[i]).region.start as int,
                    granularity as int,
                ) && aligned(c.regions@[i].region.size as int, granularity as int)
            &&& forall|i: int|
                0 <= i < requested@.len() ==> (#[trigger] c.regions@[i]).region.start <= requested@[
                    i
                ].region.start && requested@[i].region.start + requested@[i].region.size
                    <= c.regions@[i].region.start + c.regions@[i].region.size
        },
{
    if requested.len() > max_regions {
        return Err(ConfigError::TooManyRegions);
    }
    let n = requested.len();
    let mut regions: Vec<ProtectedRegion> = Vec::new();
    let mut i: usize = 0;
    while i < n
        invariant
            i <= n,
            regions@.len() == i,
            forall|j: int| 0 <= j < i ==> (#[trigger] regions@[j]).perms == requested@[j].perms,
            forall|j: int|
                0 <= j < i ==> (#[trigger] regions@[j]).region == spec_aligned_region(
                    requested@[j].region,
                    granularity as int,
                ),
            forall|j: int|
                0 <= j < i ==> aligned((#[trigger] regions@[j]).region.start as int, granularity as int)
                    && aligned(regions@[j].region.size as int, granularity as int),
            forall|j: int|
                0 <= j < i ==> (#[trigger] regions@[j]).region.start <= requested@[j].region.start
                    && requested@[j].region.start + requested@[j].region.size <= regions@[
                    j
                ].region.start + regions@[j].region.size,
        decreases n - i,
    {
        let req = requested[i];
        let aligned_region = align_region(&req.region, granularity);
        regions.push(ProtectedRegion { region: aligned_region, perms: req.perms });
        i = i + 1;
    }
    Ok(MpuConfig { regions })
}

/// A configuration whose regions each cover their requested region admits
/// every address of every requested region: rounding widens a region at
/// its edges, it never takes access away.
pub proof fn lemma_config_covers_requested(
    c: MpuConfig,
    requested: Seq<ProtectedRegion>,
    i: int,
    addr: int,
)
    requires
        c.regions@.len() == requested.len(),
        forall|j: int|
            0 <= j < requested.len() ==> (#[trigger] c.regions@[j]).region.start <= requested[
                j
            ].region.start && requested[j].region.start + requested[j].region.size <= c.regions@[
                j
            ].region.start + c.regions@[j].region.size,
        0 <= i < requested.len(),
        requested[i].region.spec_contains(addr),
    ensures
        c.spec_allows(addr),
{
    assert(c.regions@[i].region.spec_contains(addr));
}

/// Rounds one region outward to the granularity: base down, end up.
fn align_region(r: &Region, g: usize) -> (a: Region)
    requires
        g >= 1,
        r.start + r.size + g <= usize::MAX,
    ensures
        a == spec_aligned_region(*r, g as int),
        aligned(a.start as int, g as int),
        aligned(a.size as int, g as int),
        a.start <= r.start,
        r.start + r.size <= a.start + a.size,
{
    let q1 = r.start / g;
    proof {
        lemma_fundamental_div_mod(r.start as int, g as int);
        lemma_mod_bound(r.start as int, g as int);
        assert((q1 as int) * (g as int) == (g as int) * (q1 as int)) by (nonlinear_arith);
        assert((q1 as int) * (g as int) <= r.start as int);
    }
    let astart = q1 * g;
    let end_up = r.start + r.size + (g - 1);
    let q2 = end_up / g;
    proof {
        lemma_fundamental_div_mod(end_up as int, g as int);
        lemma_mod_bound(end_up as int, g as int);
        assert((q2 as int) * (g as int) == (g as int) * (q2 as int)) by (nonlinear_arith);
        assert((q2 as int) * (g as int) <= end_up as int);
    }
    let aend = q2 * g;
    proof {
        lemma_fundamental_div_mod(r.start as int, g as int);
        lemma_fundamental_div_mod(end_up as int, g as int);
        lemma_mod_bound(r.start as int, g as int);
        lemma_mod_bound(end_up as int, g as int);
        lemma_mod_multiples_basic(q1 as int, g as int);
        lemma_mod_multiples_basic(q2 as int, g as int);
        assert(astart as int == (q1 as int) * (g as int)) by (nonlinear_arith)
            requires
                astart == q1 * g,
        ;
        assert(aend as int == (q2 as int) * (g as int)) by (nonlinear_arith)
            requires
                aend == q2 * g,
        ;
        assert((aend - astart) as int == ((q2 - q1) as int) * (g as int)) by (nonlinear_arith)
            requires
                astart as int == (q1 as int) * (g as int),
                aend as int == (q2 as int) * (g as int),
        ;
        lemma_mod_multiples_basic(q2 as int - q1 as int, g as int);
    }
    Region { start: astart, size: aend - astart }
}

} // verus!
