//! Dense cache of scalar samples over a uniform lattice.
//!
//! A grid of resolution `r` covers the `(r + 1)^3` lattice points of the unit
//! cube; the sample for lattice point `(i, j, k)` is stored once and read many
//! times during cell classification.  Samples are fixed-point integers.

use vstd::prelude::*;

verus! {

/// One lattice step in fixed-point position units.
pub const POS_SCALE: i64 = 65536;

/// Largest magnitude a scalar sample or a threshold may have.
pub const FIELD_LIMIT: i64 = 1099511627776;

/// Largest accepted grid resolution; together with the twelve-edges-per-cell
/// bound it keeps every vertex index within `u32`.
pub const MAX_RESOLUTION: usize = 512;

/// Row-major position of lattice point `(i, j, k)` in the dense sample store.
pub open spec fn lattice_index(res: int, i: int, j: int, k: int) -> int {
    (i * (res + 1) + j) * (res + 1) + k
}

/// For in-range lattice coordinates the dense index stays within the store.
pub proof fn lemma_lattice_index_bounds(res: int, i: int, j: int, k: int)
    requires
        0 <= i <= res,
        0 <= j <= res,
        0 <= k <= res,
    ensures
        0 <= lattice_index(res, i, j, k) < (res + 1) * (res + 1) * (res + 1),
{
    assert(0 <= (i * (res + 1) + j) * (res + 1) + k < (res + 1) * (res + 1) * (res + 1))
        by (nonlinear_arith)
        requires
            0 <= i <= res,
            0 <= j <= res,
            0 <= k <= res,
    ;
}

/// The scalar-field cache: one sample per lattice point.
pub struct SampleGrid {
    resolution: usize,
    samples: Vec<i64>,
}

impl SampleGrid {
    /// Grid resolution: the number of cells along each axis.
    pub closed spec fn res(&self) -> int {
        self.resolution as int
    }

    /// The sample cached for lattice point `(i, j, k)`.
    pub closed spec fn sample(&self, i: int, j: int, k: int) -> int {
        self.samples@[lattice_index(self.res(), i, j, k)] as int
    }

    /// Whether `(i, j, k)` is a lattice point of this grid.
    pub open spec fn in_grid(&self, i: int, j: int, k: int) -> bool {
        0 <= i <= self.res() && 0 <= j <= self.res() && 0 <= k <= self.res()
    }

    /// Structural invariant: bounded resolution, a fully populated store, and
    /// every sample within the fixed-point range.
    pub closed spec fn wf(&self) -> bool {
        &&& self.resolution <= MAX_RESOLUTION
        &&& self.samples@.len() == (self.res() + 1) * (self.res() + 1) * (self.res() + 1)
        &&& forall|n: int|
            0 <= n < self.samples@.len() ==> -FIELD_LIMIT <= #[trigger] self.samples@[n]
                <= FIELD_LIMIT
    }

    /// Facts every caller may rely on for a well-formed grid.
    pub proof fn lemma_wf_bounds(&self)
        requires
            self.wf(),
        ensures
            0 <= self.res() <= MAX_RESOLUTION,
            forall|i: int, j: int, k: int|
                self.in_grid(i, j, k) ==> -FIELD_LIMIT <= #[trigger] self.sample(i, j, k)
                    <= FIELD_LIMIT,
    {
        assert forall|i: int, j: int, k: int| self.in_grid(i, j, k) implies -FIELD_LIMIT
            <= #[trigger] self.sample(i, j, k) <= FIELD_LIMIT by {
            lemma_lattice_index_bounds(self.res(), i, j, k);
        }
    }

    /// Builds a grid from a dense sample store laid out by `lattice_index`.
    /// Rejects oversized resolutions, a store of the wrong length, and samples
    /// outside the fixed-point range.
    pub fn new(resolution: usize, samples: Vec<i64>) -> (r: Option<SampleGrid>)
        ensures
            r is Some <==> {
                &&& resolution <= MAX_RESOLUTION
                &&& samples@.len() == (resolution + 1) * (resolution + 1) * (resolution + 1)
                &&& forall|n: int|
                    0 <= n < samples@.len() ==> -FIELD_LIMIT <= #[trigger] samples@[n]
                        <= FIELD_LIMIT
            },
            r matches Some(g) ==> {
                &&& g.wf()
                &&& g.res() == resolution
                &&& forall|i: int, j: int, k: int|
                    g.in_grid(i, j, k) ==> #[trigger] g.sample(i, j, k) == samples@[lattice_index(
                        resolution as int,
                        i,
                        j,
                        k,
                    )] as int
            },
    {
        if resolution > MAX_RESOLUTION {
            return None;
        }
        let side = resolution + 1;
        assert(side * side <= 513 * 513 && side * side * side <= 513 * 513 * 513)
            by (nonlinear_arith)
            requires
                side <= 513,
        ;
        let expected = (side * side) * side;
        if samples.len() != expected {
            return None;
        }
        let mut n: usize = 0;
        while n < samples.len()
            invariant
                n <= samples@.len(),
                forall|m: int| 0 <= m < n ==> -FIELD_LIMIT <= #[trigger] samples@[m] <= FIELD_LIMIT,
            decreases samples@.len() - n,
        {
            let v = samples[n];
            if v < -FIELD_LIMIT || v > FIELD_LIMIT {
                return None;
            }
            n += 1;
        }
        Some(SampleGrid { resolution, samples })
    }

    /// Grid resolution as a machine integer.
    pub fn resolution(&self) -> (r: usize)
        ensures
            r as int == self.res(),
    {
        self.resolution
    }

    /// The cached sample at lattice point `(i, j, k)`.
    pub fn value_at(&self, i: usize, j: usize, k: usize) -> (v: i64)
        requires
            self.wf(),
            self.in_grid(i as int, j as int, k as int),
        ensures
            v as int == self.sample(i as int, j as int, k as int),
            -FIELD_LIMIT <= v <= FIELD_LIMIT,
    {
        proof {
            lemma_lattice_index_bounds(self.res(), i as int, j as int, k as int);
        }
        let side = self.resolution + 1;
        assert(i * side <= 512 * 513 && i * side + j <= 513 * 513 && (i * side + j) * side <= 513
            * 513 * 513 && (i * side + j) * side + k < side * side * side) by (nonlinear_arith)
            requires
                side <= 513,
                i < side,
                j < side,
                k < side,
        ;
        let idx = (i * side + j) * side + k;
        assert(idx as int == lattice_index(self.res(), i as int, j as int, k as int));
        assert(self.samples@.len() == side * side * side);
        self.samples[idx]
    }
}

} // verus!
