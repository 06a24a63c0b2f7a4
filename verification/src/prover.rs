//! Batched proof requests: what one call of the proof engine is handed for a
//! batch of circuits, and what its answer means.
//!
//! The engine itself is native code outside this crate. It is handed the
//! descriptors built here together with the caller's buffers, and answers
//! with one status for the whole batch.

use vstd::prelude::*;
use vstd::arithmetic::power2::pow2;
use crate::ntt::{ceil_log2, NttError, NttInputs};
use crate::points::{covers, has_bits, SparsePointSet};
use crate::srs::SrsContext;

verus! {

/// Number of bits in one element of a density bitmap.
pub const DENSITY_ELEMENT_BITS: usize = 64;

/// Why a batch is not handed to the engine, or what the engine said of it.
#[derive(Debug, PartialEq, Eq)]
pub enum ProofError {
    /// No reference string is loaded.
    SrsNotLoaded,
    /// The density bitmaps are not made of 64-bit elements.
    UnsupportedDensityWidth,
    /// A per-circuit array does not have one entry per circuit.
    BatchLengthMismatch,
    /// The coefficient vectors are empty.
    EmptyNttInput,
    /// The padded domain has more elements than an index can address.
    DomainOverflow,
    /// The size of a point group does not fit in an index.
    SizeOverflow,
    /// A density bitmap has fewer bits than its group has candidates.
    DensityTooShort,
    /// The engine failed the batch; no proof of it may be used.
    Engine { code: i32, message: String },
}

/// Lengths of the per-circuit arrays that come with a batch.
#[derive(Clone, Copy, Debug, PartialEq, Eq)]
pub struct BatchArrays {
    pub ntt_a_scalars: usize,
    pub ntt_b_scalars: usize,
    pub ntt_c_scalars: usize,
    pub input_assignments: usize,
    pub aux_assignments: usize,
    pub r_s: usize,
    pub s_s: usize,
    pub proofs: usize,
}

impl BatchArrays {
    /// Every per-circuit array has exactly one entry per circuit.
    pub open spec fn matches_batch(&self, num_circuits: usize) -> bool {
        &&& self.ntt_a_scalars == num_circuits
        &&& self.ntt_b_scalars == num_circuits
        &&& self.ntt_c_scalars == num_circuits
        &&& self.input_assignments == num_circuits
        &&& self.aux_assignments == num_circuits
        &&& self.r_s == num_circuits
        &&& self.s_s == num_circuits
        &&& self.proofs == num_circuits
    }
}

/// The sizes that describe every circuit of a batch.
#[derive(Clone, Copy, Debug, PartialEq, Eq)]
pub struct CircuitSizes {
    /// Length of each of the three coefficient vectors.
    pub ntt_scalars_actual_size: usize,
    /// Number of public-input assignments.
    pub input_assignments_size: usize,
    /// Number of auxiliary-witness assignments.
    pub aux_assignments_size: usize,
    /// Number of set bits of the A wire's density bitmap.
    pub a_aux_total_density: usize,
    /// Number of set bits of the B wire's density bitmap.
    pub b_g1_aux_total_density: usize,
}

/// What the engine is handed for one batch, apart from the buffers.
#[derive(Clone, Copy, Debug, PartialEq, Eq)]
pub struct BatchedProofRequest<'a> {
    pub ntt_inputs: NttInputs,
    /// The L group: all auxiliary points, full density.
    pub points_l: SparsePointSet<'a>,
    /// The A group: the inputs as prefix, then the auxiliary points of A.
    pub points_a: SparsePointSet<'a>,
    /// The B group over the first curve group.
    pub points_b_g1: SparsePointSet<'a>,
    /// The B group over the second curve group.
    pub points_b_g2: SparsePointSet<'a>,
    pub input_assignment_size: usize,
    pub aux_assignment_size: usize,
    pub num_circuits: usize,
}

impl<'a> BatchedProofRequest<'a> {
    /// The domain is sized for the coefficient count, L has full density over
    /// the auxiliary assignments, A skips the inputs, both B groups skip one
    /// slot and share one bitmap and density, and A and B have exactly as
    /// many slots as their prefix and density call for.
    pub open spec fn wf(&self) -> bool {
        &&& self.ntt_inputs.wf()
        &&& self.points_l.wf()
        &&& self.points_l.density_bitmap is None
        &&& self.points_l.skip == 0
        &&& self.points_l.logical_size == self.aux_assignment_size
        &&& self.points_a.shape_ok()
        &&& self.points_a.density_bitmap is Some
        &&& self.points_a.skip == self.input_assignment_size
        &&& self.points_a.logical_size == self.points_a.total_density + self.points_a.skip
        &&& self.points_b_g1.shape_ok()
        &&& self.points_b_g1.density_bitmap is Some
        &&& self.points_b_g1.skip == 1
        &&& self.points_b_g1.logical_size == self.points_b_g1.total_density + 1
        &&& self.points_b_g2 == self.points_b_g1
    }

    /// The same request for another number of circuits.
    pub open spec fn for_batch_of(&self, num_circuits: usize) -> BatchedProofRequest<'a> {
        BatchedProofRequest { num_circuits, ..*self }
    }

    /// Recounts the bits of the A and B bitmaps and says whether each group
    /// is declared with its true density. A check for testing; the engine is
    /// handed the request either way.
    pub fn verify_densities(&self) -> (b: bool)
        ensures
            b == (self.points_l.wf() && self.points_a.wf() && self.points_b_g1.wf()
                && self.points_b_g2.wf()),
    {
        self.points_l.verify_density() && self.points_a.verify_density()
            && self.points_b_g1.verify_density() && self.points_b_g2.verify_density()
    }
}

/// The first rule that the sizes and bitmaps of a batch break, if any.
pub open spec fn descriptor_error(sizes: CircuitSizes, a_bv: Seq<u64>, b_bv: Seq<u64>) -> Option<
    ProofError,
> {
    if sizes.ntt_scalars_actual_size == 0 {
        Some(ProofError::EmptyNttInput)
    } else if pow2(ceil_log2(sizes.ntt_scalars_actual_size as nat)) > usize::MAX {
        Some(ProofError::DomainOverflow)
    } else if sizes.a_aux_total_density + sizes.input_assignments_size > usize::MAX {
        Some(ProofError::SizeOverflow)
    } else if sizes.b_g1_aux_total_density + 1 > usize::MAX {
        Some(ProofError::SizeOverflow)
    } else if !covers(a_bv, sizes.a_aux_total_density as int) {
        Some(ProofError::DensityTooShort)
    } else if !covers(b_bv, sizes.b_g1_aux_total_density as int) {
        Some(ProofError::DensityTooShort)
    } else {
        None
    }
}

/// The descriptors of a batch whose sizes and bitmaps break no rule.
pub open spec fn request_for<'a>(
    sizes: CircuitSizes,
    a_bv: &'a [u64],
    b_bv: &'a [u64],
    num_circuits: usize,
) -> BatchedProofRequest<'a> {
    let points_b = SparsePointSet {
        logical_size: (sizes.b_g1_aux_total_density + 1) as usize,
        skip: 1,
        density_bitmap: Some(b_bv),
        total_density: sizes.b_g1_aux_total_density,
    };
    BatchedProofRequest {
        ntt_inputs: NttInputs {
            actual_size: sizes.ntt_scalars_actual_size,
            log_domain_size: ceil_log2(sizes.ntt_scalars_actual_size as nat) as usize,
        },
        points_l: SparsePointSet {
            logical_size: sizes.aux_assignments_size,
            skip: 0,
            density_bitmap: None,
            total_density: sizes.aux_assignments_size,
        },
        points_a: SparsePointSet {
            logical_size: (sizes.a_aux_total_density + sizes.input_assignments_size) as usize,
            skip: sizes.input_assignments_size,
            density_bitmap: Some(a_bv),
            total_density: sizes.a_aux_total_density,
        },
        points_b_g1: points_b,
        points_b_g2: points_b,
        input_assignment_size: sizes.input_assignments_size,
        aux_assignment_size: sizes.aux_assignments_size,
        num_circuits,
    }
}

/// What is answered for a batch: the request for the engine, or the first
/// rule that the batch breaks.
pub open spec fn generate_spec<'a>(
    srs_loaded: bool,
    arrays: BatchArrays,
    sizes: CircuitSizes,
    a_bv: &'a [u64],
    b_bv: &'a [u64],
    num_circuits: usize,
) -> Result<BatchedProofRequest<'a>, ProofError> {
    if !srs_loaded {
        Err(ProofError::SrsNotLoaded)
    } else if !arrays.matches_batch(num_circuits) {
        Err(ProofError::BatchLengthMismatch)
    } else {
        match descriptor_error(sizes, a_bv@, b_bv@) {
            Some(e) => Err(e),
            None => Ok(request_for(sizes, a_bv, b_bv, num_circuits)),
        }
    }
}

/// Says whether density bitmaps with elements of `element_bits` bits can be
/// handed to the engine: only 64-bit elements can.
pub fn check_density_width(element_bits: usize) -> (r: Result<(), ProofError>)
    ensures
        element_bits == 64 ==> r is Ok,
        element_bits != 64 ==> r == Err::<(), ProofError>(ProofError::UnsupportedDensityWidth),
{
    if element_bits == DENSITY_ELEMENT_BITS {
        Ok(())
    } else {
        Err(ProofError::UnsupportedDensityWidth)
    }
}

/// Builds the descriptors of one circuit family from its sizes and bitmaps.
pub fn describe_circuits<'a>(
    sizes: CircuitSizes,
    a_aux_density_bv: &'a [u64],
    b_g1_aux_density_bv: &'a [u64],
    num_circuits: usize,
) -> (r: Result<BatchedProofRequest<'a>, ProofError>)
    ensures
        match descriptor_error(sizes, a_aux_density_bv@, b_g1_aux_density_bv@) {
            Some(e) => r == Err::<BatchedProofRequest<'a>, ProofError>(e),
            None => r == Ok::<BatchedProofRequest<'a>, ProofError>(
                request_for(sizes, a_aux_density_bv, b_g1_aux_density_bv, num_circuits),
            ),
        },
        r matches Ok(req) ==> req.wf(),
{
    let ntt_inputs = match NttInputs::new(sizes.ntt_scalars_actual_size) {
        Ok(ntt) => ntt,
        Err(NttError::Empty) => {
            return Err(ProofError::EmptyNttInput);
        },
        Err(NttError::DomainOverflow) => {
            return Err(ProofError::DomainOverflow);
        },
    };
    let a_size = match sizes.a_aux_total_density.checked_add(sizes.input_assignments_size) {
        Some(n) => n,
        None => {
            return Err(ProofError::SizeOverflow);
        },
    };
    let b_size = match sizes.b_g1_aux_total_density.checked_add(1) {
        Some(n) => n,
        None => {
            return Err(ProofError::SizeOverflow);
        },
    };
    if !has_bits(a_aux_density_bv, sizes.a_aux_total_density) {
        return Err(ProofError::DensityTooShort);
    }
    if !has_bits(b_g1_aux_density_bv, sizes.b_g1_aux_total_density) {
        return Err(ProofError::DensityTooShort);
    }
    let points_l = SparsePointSet {
        logical_size: sizes.aux_assignments_size,
        skip: 0,
        density_bitmap: None,
        total_density: sizes.aux_assignments_size,
    };
    let points_a = SparsePointSet {
        logical_size: a_size,
        skip: sizes.input_assignments_size,
        density_bitmap: Some(a_aux_density_bv),
        total_density: sizes.a_aux_total_density,
    };
    let points_b = SparsePointSet {
        logical_size: b_size,
        skip: 1,
        density_bitmap: Some(b_g1_aux_density_bv),
        total_density: sizes.b_g1_aux_total_density,
    };
    Ok(
        BatchedProofRequest {
            ntt_inputs,
            points_l,
            points_a,
            points_b_g1: points_b,
            points_b_g2: points_b,
            input_assignment_size: sizes.input_assignments_size,
            aux_assignment_size: sizes.aux_assignments_size,
            num_circuits,
        },
    )
}

/// Prepares one call of the proof engine for a batch of `num_circuits`
/// circuits. The reference string must be loaded, every per-circuit array
/// must have one entry per circuit, and the sizes and bitmaps must fit
/// together; the answer is then the request to hand to the engine.
pub fn generate_groth16_proof<'a, P, S, PR>(
    srs: &SrsContext,
    ntt_a_scalars: &[P],
    ntt_b_scalars: &[P],
    ntt_c_scalars: &[P],
    ntt_scalars_actual_size: usize,
    input_assignments: &[P],
    aux_assignments: &[P],
    input_assignments_size: usize,
    aux_assignments_size: usize,
    a_aux_density_bv: &'a [u64],
    b_g1_aux_density_bv: &'a [u64],
    a_aux_total_density: usize,
    b_g1_aux_total_density: usize,
    num_circuits: usize,
    r_s: &[S],
    s_s: &[S],
    proofs: &[PR],
) -> (r: Result<BatchedProofRequest<'a>, ProofError>)
    ensures
        r == generate_spec(
            srs@ is Some,
            (BatchArrays {
                ntt_a_scalars: ntt_a_scalars@.len() as usize,
                ntt_b_scalars: ntt_b_scalars@.len() as usize,
                ntt_c_scalars: ntt_c_scalars@.len() as usize,
                input_assignments: input_assignments@.len() as usize,
                aux_assignments: aux_assignments@.len() as usize,
                r_s: r_s@.len() as usize,
                s_s: s_s@.len() as usize,
                proofs: proofs@.len() as usize,
            }),
            (CircuitSizes {
                ntt_scalars_actual_size,
                input_assignments_size,
                aux_assignments_size,
                a_aux_total_density,
                b_g1_aux_total_density,
            }),
            a_aux_density_bv,
            b_g1_aux_density_bv,
            num_circuits,
        ),
        r matches Ok(req) ==> req.wf(),
{
    if !srs.is_loaded() {
        return Err(ProofError::SrsNotLoaded);
    }
    if ntt_a_scalars.len() != num_circuits || ntt_b_scalars.len() != num_circuits
        || ntt_c_scalars.len() != num_circuits || input_assignments.len() != num_circuits
        || aux_assignments.len() != num_circuits || r_s.len() != num_circuits || s_s.len()
        != num_circuits || proofs.len() != num_circuits {
        return Err(ProofError::BatchLengthMismatch);
    }
    let sizes = CircuitSizes {
        ntt_scalars_actual_size,
        input_assignments_size,
        aux_assignments_size,
        a_aux_total_density,
        b_g1_aux_total_density,
    };
    describe_circuits(sizes, a_aux_density_bv, b_g1_aux_density_bv, num_circuits)
}

/// The answer of the engine for one batch: zero for success, and a message
/// where the engine gave one.
#[derive(Debug, PartialEq, Eq)]
pub struct EngineStatus {
    pub code: i32,
    pub message: String,
}

/// Reads the engine's answer. Zero means that every proof of the batch was
/// written; anything else fails the whole batch.
pub fn check_engine_status(status: EngineStatus) -> (r: Result<(), ProofError>)
    ensures
        status.code == 0 ==> r is Ok,
        status.code != 0 ==> r == Err::<(), ProofError>(
            ProofError::Engine { code: status.code, message: status.message },
        ),
{
    if status.code == 0 {
        Ok(())
    } else {
        Err(ProofError::Engine { code: status.code, message: status.message })
    }
}

/// Batch invariance: what a circuit is described by does not depend on how
/// many circuits share the batch. Given arrays that match either batch, a
/// batch of any size is refused exactly when the batch of one is, with the
/// same error, and is else handed the descriptors of the batch of one.
pub proof fn lemma_batch_invariance<'a>(
    srs_loaded: bool,
    arrays_many: BatchArrays,
    arrays_one: BatchArrays,
    sizes: CircuitSizes,
    a_bv: &'a [u64],
    b_bv: &'a [u64],
    num_circuits: usize,
)
    requires
        arrays_many.matches_batch(num_circuits),
        arrays_one.matches_batch(1),
    ensures
        match (
            generate_spec(srs_loaded, arrays_many, sizes, a_bv, b_bv, num_circuits),
            generate_spec(srs_loaded, arrays_one, sizes, a_bv, b_bv, 1),
        ) {
            (Ok(many), Ok(one)) => many.for_batch_of(1) == one && many == one.for_batch_of(
                num_circuits,
            ),
            (Err(e_many), Err(e_one)) => e_many == e_one,
            _ => false,
        },
{
}

/// Determinism across a reload: once the same file is loaded again, with or
/// without a reset in between, the same batch is answered the same way.
pub proof fn lemma_reload_round_trip<'a>(
    state: Option<Seq<char>>,
    path: Seq<char>,
    arrays: BatchArrays,
    sizes: CircuitSizes,
    a_bv: &'a [u64],
    b_bv: &'a [u64],
    num_circuits: usize,
)
    requires
        crate::path::is_native_path(vstd::utf8::encode_utf8(path)),
    ensures
        ({
            let first = crate::srs::after_load(state, path);
            let again = crate::srs::after_load(crate::srs::after_reset(first), path);
            &&& again == first
            &&& generate_spec(again is Some, arrays, sizes, a_bv, b_bv, num_circuits)
                == generate_spec(first is Some, arrays, sizes, a_bv, b_bv, num_circuits)
        }),
{
}

} // verus!
