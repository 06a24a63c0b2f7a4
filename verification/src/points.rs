//! Sparse point sets: the operand of one multi-scalar multiplication.
//!
//! A set describes `logical_size` point slots. The first `skip` slots always
//! take part. Each later slot is a candidate with one bit in the density
//! bitmap; it takes part when its bit is set. A set without a bitmap has
//! full density: every candidate takes part.

use vstd::prelude::*;
use crate::density::{bit_at, count_bits, count_set, test_bit};

verus! {

/// Why a description is not a sparse point set.
#[derive(Clone, Copy, Debug, PartialEq, Eq)]
pub enum PointSetError {
    /// More slots are skipped than the set has.
    SkipExceedsSize,
    /// The skipped slots and the declared density do not fit in the set.
    DensityExceedsSize,
    /// The bitmap has fewer bits than there are candidates.
    BitmapTooShort,
    /// The declared density is not the number of set candidate bits.
    DensityMismatch,
}

/// One operand collection of a multi-scalar multiplication. The bitmap is
/// borrowed from the caller for as long as the set lives.
#[derive(Clone, Copy, Debug, PartialEq, Eq)]
pub struct SparsePointSet<'a> {
    /// Number of point slots, the always-included prefix counted in.
    pub logical_size: usize,
    /// Number of leading slots that the bitmap does not cover.
    pub skip: usize,
    /// One bit per candidate slot, or `None` for full density.
    pub density_bitmap: Option<&'a [u64]>,
    /// Declared number of candidates that take part.
    pub total_density: usize,
}

/// Whether `words` hold at least `candidates` bits.
pub open spec fn covers(words: Seq<u64>, candidates: int) -> bool {
    candidates <= 64 * words.len()
}

impl<'a> SparsePointSet<'a> {
    /// Number of slots after the prefix.
    pub open spec fn candidates(&self) -> int {
        self.logical_size - self.skip
    }

    /// The sizes fit together and the bitmap, if any, covers every candidate.
    pub open spec fn shape_ok(&self) -> bool {
        &&& self.skip + self.total_density <= self.logical_size
        &&& match self.density_bitmap {
            Some(words) => covers(words@, self.candidates()),
            None => self.total_density == self.candidates(),
        }
    }

    /// Number of candidates that take part, read off the bitmap itself.
    pub open spec fn true_density(&self) -> nat {
        match self.density_bitmap {
            Some(words) => count_set(words@, self.candidates()),
            None => if self.candidates() >= 0 {
                self.candidates() as nat
            } else {
                0
            },
        }
    }

    /// The shape is sound and the declared density is the true one.
    pub open spec fn wf(&self) -> bool {
        &&& self.shape_ok()
        &&& self.total_density == self.true_density()
    }

    /// Whether slot `i` takes part in the multiplication.
    pub open spec fn includes_spec(&self, i: int) -> bool {
        &&& 0 <= i < self.logical_size
        &&& i < self.skip || match self.density_bitmap {
            Some(words) => bit_at(words@, i - self.skip),
            None => true,
        }
    }

    /// Number of slots among the first `n` that take part.
    pub open spec fn included_upto(&self, n: int) -> nat
        decreases n,
    {
        if n <= 0 {
            0
        } else {
            self.included_upto(n - 1) + if self.includes_spec(n - 1) {
                1nat
            } else {
                0nat
            }
        }
    }

    /// Number of candidates that take part: the included slots after the
    /// always-included prefix.
    pub open spec fn included_after_prefix(&self) -> int {
        self.included_upto(self.logical_size as int) - self.included_upto(self.skip as int)
    }

    /// The slots that take part, in the order they are visited.
    pub open spec fn visited_upto(&self, n: int) -> Seq<usize>
        decreases n,
    {
        if n <= 0 {
            Seq::empty()
        } else if self.includes_spec(n - 1) {
            self.visited_upto(n - 1).push((n - 1) as usize)
        } else {
            self.visited_upto(n - 1)
        }
    }

    /// What `full` answers.
    pub open spec fn full_spec(logical_size: usize, skip: usize) -> Result<
        SparsePointSet<'a>,
        PointSetError,
    > {
        if skip > logical_size {
            Err(PointSetError::SkipExceedsSize)
        } else {
            Ok(
                SparsePointSet {
                    logical_size,
                    skip,
                    density_bitmap: None,
                    total_density: (logical_size - skip) as usize,
                },
            )
        }
    }

    /// A set of full density: every slot after the prefix takes part.
    pub fn full(logical_size: usize, skip: usize) -> (r: Result<SparsePointSet<'a>, PointSetError>)
        ensures
            r == Self::full_spec(logical_size, skip),
            r matches Ok(set) ==> set.wf(),
    {
        if skip > logical_size {
            return Err(PointSetError::SkipExceedsSize);
        }
        Ok(
            SparsePointSet {
                logical_size,
                skip,
                density_bitmap: None,
                total_density: logical_size - skip,
            },
        )
    }

    /// The first shape rule that a description with a bitmap breaks.
    pub open spec fn shape_error(
        logical_size: usize,
        skip: usize,
        words: Seq<u64>,
        total_density: usize,
    ) -> Option<PointSetError> {
        if skip > logical_size {
            Some(PointSetError::SkipExceedsSize)
        } else if total_density > logical_size - skip {
            Some(PointSetError::DensityExceedsSize)
        } else if !covers(words, logical_size - skip) {
            Some(PointSetError::BitmapTooShort)
        } else {
            None
        }
    }

    /// A set with a bitmap whose density is taken on trust. The shape is
    /// checked; the bits are not counted.
    pub fn with_declared_density(
        logical_size: usize,
        skip: usize,
        density_bitmap: &'a [u64],
        total_density: usize,
    ) -> (r: Result<SparsePointSet<'a>, PointSetError>)
        ensures
            match Self::shape_error(logical_size, skip, density_bitmap@, total_density) {
                Some(e) => r == Err::<SparsePointSet<'a>, PointSetError>(e),
                None => r == Ok::<SparsePointSet<'a>, PointSetError>(
                    SparsePointSet {
                        logical_size,
                        skip,
                        density_bitmap: Some(density_bitmap),
                        total_density,
                    },
                ),
            },
            r matches Ok(set) ==> set.shape_ok(),
    {
        if skip > logical_size {
            return Err(PointSetError::SkipExceedsSize);
        }
        let candidates: usize = logical_size - skip;
        if total_density > candidates {
            return Err(PointSetError::DensityExceedsSize);
        }
        if !has_bits(density_bitmap, candidates) {
            return Err(PointSetError::BitmapTooShort);
        }
        Ok(SparsePointSet { logical_size, skip, density_bitmap: Some(density_bitmap), total_density })
    }

    /// A set with a bitmap whose density is verified: the candidate bits are
    /// counted and compared with the declared density.
    pub fn sparse(
        logical_size: usize,
        skip: usize,
        density_bitmap: &'a [u64],
        total_density: usize,
    ) -> (r: Result<SparsePointSet<'a>, PointSetError>)
        ensures
            match Self::shape_error(logical_size, skip, density_bitmap@, total_density) {
                Some(e) => r == Err::<SparsePointSet<'a>, PointSetError>(e),
                None => if count_set(density_bitmap@, logical_size - skip) == total_density {
                    r == Ok::<SparsePointSet<'a>, PointSetError>(
                        SparsePointSet {
                            logical_size,
                            skip,
                            density_bitmap: Some(density_bitmap),
                            total_density,
                        },
                    )
                } else {
                    r == Err::<SparsePointSet<'a>, PointSetError>(PointSetError::DensityMismatch)
                },
            },
            r matches Ok(set) ==> set.wf(),
    {
        match Self::with_declared_density(logical_size, skip, density_bitmap, total_density) {
            Err(e) => Err(e),
            Ok(set) => {
                if count_bits(density_bitmap, logical_size - skip) == total_density {
                    Ok(set)
                } else {
                    Err(PointSetError::DensityMismatch)
                }
            },
        }
    }

    /// Recounts the candidate bits and says whether the set is well formed:
    /// sound in shape, and declared with its true density.
    pub fn verify_density(&self) -> (b: bool)
        ensures
            b == self.wf(),
    {
        if self.skip > self.logical_size {
            return false;
        }
        let candidates: usize = self.logical_size - self.skip;
        if self.total_density > candidates {
            return false;
        }
        match self.density_bitmap {
            None => self.total_density == candidates,
            Some(words) => {
                has_bits(words, candidates) && count_bits(words, candidates) == self.total_density
            },
        }
    }

    /// Whether slot `i` takes part in the multiplication.
    pub fn includes(&self, i: usize) -> (b: bool)
        ensures
            b == self.includes_spec(i as int),
    {
        if i >= self.logical_size {
            return false;
        }
        if i < self.skip {
            return true;
        }
        match self.density_bitmap {
            None => true,
            Some(words) => test_bit(words, i - self.skip),
        }
    }

    /// Number of candidates that take part, counted slot by slot.
    pub fn count_included(&self) -> (c: usize)
        ensures
            c == self.included_after_prefix(),
    {
        let mut c: usize = 0;
        let mut i: usize = self.skip;
        while i < self.logical_size
            invariant
                self.skip <= i,
                i <= self.logical_size || i == self.skip,
                c == self.included_upto(i as int) - self.included_upto(self.skip as int),
                c <= i - self.skip,
            decreases self.logical_size - i,
        {
            if self.includes(i) {
                c = c + 1;
            }
            i = i + 1;
        }
        proof {
            if self.skip > self.logical_size {
                self.lemma_included_upto_beyond(self.skip as int);
            }
        }
        c
    }

    /// The slots that take part, in ascending order: the prefix first, then
    /// each candidate whose bit is set.
    pub fn included_points(&self) -> (v: Vec<usize>)
        ensures
            v@ == self.visited_upto(self.logical_size as int),
            v@.len() == self.included_upto(self.logical_size as int),
    {
        let mut v: Vec<usize> = Vec::new();
        let mut i: usize = 0;
        while i < self.logical_size
            invariant
                i <= self.logical_size,
                v@ == self.visited_upto(i as int),
                v@.len() == self.included_upto(i as int),
                v@.len() <= i,
            decreases self.logical_size - i,
        {
            if self.includes(i) {
                v.push(i);
            }
            i = i + 1;
        }
        v
    }

    /// No slot past the end of the set takes part.
    pub proof fn lemma_included_upto_beyond(&self, n: int)
        requires
            self.logical_size <= n,
        ensures
            self.included_upto(n) == self.included_upto(self.logical_size as int),
        decreases n,
    {
        if self.logical_size < n {
            self.lemma_included_upto_beyond(n - 1);
        }
    }

    /// Every slot of the prefix takes part.
    pub proof fn lemma_prefix_included(&self, n: int)
        requires
            0 <= n <= self.skip <= self.logical_size,
        ensures
            self.included_upto(n) == n,
        decreases n,
    {
        if n > 0 {
            self.lemma_prefix_included(n - 1);
        }
    }

    /// After the prefix, the included slots are counted by the candidate
    /// bits, or by the candidates themselves where there is no bitmap.
    pub proof fn lemma_included_counts_candidates(&self, n: int)
        requires
            self.skip <= n <= self.logical_size,
        ensures
            self.included_upto(n) == self.skip + match self.density_bitmap {
                Some(words) => count_set(words@, n - self.skip),
                None => (n - self.skip) as nat,
            },
        decreases n,
    {
        if n == self.skip {
            self.lemma_prefix_included(n);
        } else {
            self.lemma_included_counts_candidates(n - 1);
        }
    }

    /// Full density: without a bitmap, exactly `logical_size - skip` slots
    /// take part after the prefix.
    pub proof fn lemma_full_density(&self)
        requires
            self.wf(),
            self.density_bitmap is None,
        ensures
            self.included_after_prefix() == self.logical_size - self.skip,
    {
        self.lemma_included_counts_candidates(self.logical_size as int);
        self.lemma_prefix_included(self.skip as int);
    }

    /// Density count: with a bitmap, exactly `total_density` slots take part
    /// after the prefix.
    pub proof fn lemma_density_count(&self)
        requires
            self.wf(),
            self.density_bitmap is Some,
        ensures
            self.included_after_prefix() == self.total_density,
    {
        self.lemma_included_counts_candidates(self.logical_size as int);
        self.lemma_prefix_included(self.skip as int);
    }

    /// A well-formed set is visited at exactly `skip + total_density` slots.
    pub proof fn lemma_visit_count(&self)
        requires
            self.wf(),
        ensures
            self.included_upto(self.logical_size as int) == self.skip + self.total_density,
    {
        self.lemma_included_counts_candidates(self.logical_size as int);
    }
}

/// Whether the bitmap holds at least `candidates` bits.
pub fn has_bits(words: &[u64], candidates: usize) -> (b: bool)
    ensures
        b == covers(words@, candidates as int),
{
    let whole: usize = candidates / 64;
    let partial: usize = if candidates % 64 != 0 {
        1
    } else {
        0
    };
    whole + partial <= words.len()
}

} // verus!
