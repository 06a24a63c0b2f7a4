//! Sizing of the evaluation domain for the number-theoretic transform.
//!
//! Each circuit supplies three coefficient vectors of `actual_size` scalars.
//! The transform runs over the next power of two, whose exponent is the
//! ceiling of the binary logarithm of `actual_size`.

use vstd::prelude::*;
use vstd::arithmetic::power2::*;
use vstd::bits::*;
use vstd::std_specs::bits::*;

verus! {

/// Ceiling of the binary logarithm: the least exponent whose power of two
/// is at least `n`.
pub open spec fn ceil_log2(n: nat) -> nat
    decreases n,
{
    if n <= 1 {
        0
    } else {
        1 + ceil_log2((n + 1) / 2)
    }
}

/// `k` is the least exponent whose power of two is at least `n`.
pub open spec fn is_least_exponent(n: nat, k: nat) -> bool {
    &&& n <= pow2(k)
    &&& k > 0 ==> pow2((k - 1) as nat) < n
}

/// `ceil_log2(n)` is the least exponent whose power of two reaches `n`.
pub proof fn lemma_ceil_log2_is_least_exponent(n: nat)
    requires
        n >= 1,
    ensures
        is_least_exponent(n, ceil_log2(n)),
    decreases n,
{
    lemma2_to64();
    if n >= 2 {
        let m = (n + 1) / 2;
        let k = ceil_log2(m);
        lemma_ceil_log2_is_least_exponent(m);
        lemma_pow2_unfold(k + 1);
        if k > 0 {
            lemma_pow2_unfold(k);
        }
    }
}

/// Only one exponent is the least one: whoever meets the bounds is
/// `ceil_log2(n)`.
pub proof fn lemma_least_exponent_unique(n: nat, k: nat)
    requires
        n >= 1,
        is_least_exponent(n, k),
    ensures
        k == ceil_log2(n),
{
    let c = ceil_log2(n);
    lemma_ceil_log2_is_least_exponent(n);
    if k < c {
        if k < c - 1 {
            lemma_pow2_strictly_increases(k, (c - 1) as nat);
        }
    } else if c < k {
        if c < k - 1 {
            lemma_pow2_strictly_increases(c, (k - 1) as nat);
        }
    }
}

/// Moving from an exact power of two to one element more costs exactly one
/// more level of the domain.
pub proof fn lemma_log_domain_size_step(k: nat)
    ensures
        ceil_log2(pow2(k)) == k,
        ceil_log2(pow2(k) + 1) == k + 1,
{
    lemma_pow2_pos(k);
    lemma_pow2_unfold(k + 1);
    if k > 0 {
        lemma_pow2_strictly_increases((k - 1) as nat, k);
    }
    lemma_least_exponent_unique(pow2(k), k);
    lemma_least_exponent_unique(pow2(k) + 1, k + 1);
}

/// Exponent of the evaluation domain for `actual_size` coefficients.
pub fn log_domain_size(actual_size: usize) -> (lg: usize)
    requires
        actual_size >= 1,
    ensures
        lg == ceil_log2(actual_size as nat),
        lg <= usize::BITS,
{
    let m: u64 = (actual_size - 1) as u64;
    let lz: u32 = m.leading_zeros();
    let lg: usize = (64 - lz) as usize;
    proof {
        axiom_u64_leading_zeros(m);
        lemma2_to64();
        lemma2_to64_rest();
        let k = lg as nat;
        if m == 0 {
            assert(k == 0);
        } else {
            let top: u64 = (63 - lz) as u64;
            assert((m >> top) & 1 != 0 ==> (m >> top) != 0) by (bit_vector);
            lemma_u64_shr_is_div(m, top);
            lemma_pow2_pos(top as nat);
            assert(m >= pow2(top as nat)) by (nonlinear_arith)
                requires
                    m as nat / pow2(top as nat) != 0,
                    pow2(top as nat) > 0,
            ;
            if lz > 0 {
                let cut: u64 = (64 - lz) as u64;
                lemma_u64_shr_is_div(m, cut);
                lemma_pow2_pos(cut as nat);
                assert(m < pow2(cut as nat)) by (nonlinear_arith)
                    requires
                        m as nat / pow2(cut as nat) == 0,
                        pow2(cut as nat) > 0,
                ;
            }
            assert(is_least_exponent(actual_size as nat, k));
        }
        lemma_least_exponent_unique(actual_size as nat, k);
        if usize::BITS == 32 {
            if lg > 32 {
                lemma_pow2_strictly_increases(32, (k - 1) as nat);
            }
        }
    }
    lg
}

/// Why a coefficient count cannot be given a domain.
#[derive(Clone, Copy, Debug, PartialEq, Eq)]
pub enum NttError {
    /// There are no coefficients: `actual_size` is zero.
    Empty,
    /// The padded domain has more elements than an index can address.
    DomainOverflow,
}

/// Sizes of one circuit's transform input: the true length of each of the
/// three coefficient vectors and the exponent of the padded domain.
#[derive(Clone, Copy, Debug, PartialEq, Eq)]
pub struct NttInputs {
    pub actual_size: usize,
    pub log_domain_size: usize,
}

impl NttInputs {
    /// The exponent is the ceiling logarithm of a non-zero length, and the
    /// padded domain is addressable.
    pub open spec fn wf(&self) -> bool {
        &&& self.actual_size >= 1
        &&& self.log_domain_size == ceil_log2(self.actual_size as nat)
        &&& pow2(self.log_domain_size as nat) <= usize::MAX
    }

    /// What `new` answers for a given length.
    pub open spec fn new_spec(actual_size: usize) -> Result<NttInputs, NttError> {
        if actual_size == 0 {
            Err(NttError::Empty)
        } else if pow2(ceil_log2(actual_size as nat)) > usize::MAX {
            Err(NttError::DomainOverflow)
        } else {
            Ok(
                NttInputs {
                    actual_size,
                    log_domain_size: ceil_log2(actual_size as nat) as usize,
                },
            )
        }
    }

    /// Sizes the domain for vectors of `actual_size` coefficients.
    pub fn new(actual_size: usize) -> (r: Result<NttInputs, NttError>)
        ensures
            r == Self::new_spec(actual_size),
            r matches Ok(ntt) ==> ntt.wf(),
    {
        if actual_size == 0 {
            return Err(NttError::Empty);
        }
        let lg: usize = log_domain_size(actual_size);
        proof {
            lemma2_to64();
            lemma2_to64_rest();
            if lg < usize::BITS {
                lemma_usize_pow2_no_overflow(lg as nat);
            }
        }
        if lg >= usize::BITS as usize {
            return Err(NttError::DomainOverflow);
        }
        Ok(NttInputs { actual_size, log_domain_size: lg })
    }

    /// Number of elements of the padded domain: the least power of two that
    /// holds `actual_size` coefficients.
    pub fn domain_size(&self) -> (d: usize)
        requires
            self.wf(),
        ensures
            d == pow2(self.log_domain_size as nat),
            self.actual_size <= d,
            d < 2 * self.actual_size,
    {
        proof {
            lemma2_to64();
            lemma2_to64_rest();
            lemma_ceil_log2_is_least_exponent(self.actual_size as nat);
            if self.log_domain_size >= usize::BITS {
                lemma_pow2_strictly_increases(32, self.log_domain_size as nat);
                if self.log_domain_size > 64 {
                    lemma_pow2_strictly_increases(64, self.log_domain_size as nat);
                }
            }
            lemma_usize_shl_is_mul(1usize, self.log_domain_size);
            if self.log_domain_size > 0 {
                lemma_pow2_unfold(self.log_domain_size as nat);
            }
        }
        1usize << self.log_domain_size
    }
}

} // verus!
