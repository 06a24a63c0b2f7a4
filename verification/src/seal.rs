//! The sealing pipeline: three phases over a slot of co-processed sectors.
//!
//! A slot is a region of shared storage, named by the block offset at which
//! it starts. Replica derivation fills it for all its sectors at once, tree
//! commitment builds the commitments over it, and the final proof is then
//! made sector by sector. The phases themselves are native calls made by the
//! caller. The orchestrator decides whether a phase may start, says what the
//! native call is handed, and records what it answered.

use vstd::prelude::*;
use vstd::slice::slice_to_vec;
use crate::path::{check_native_path, is_native_path, same_path};

verus! {

/// Number of bytes of a replica identifier, a seed or a ticket.
pub const REPLICA_ID_BYTES: usize = 32;

/// Identifies the replica of one sector.
pub type ReplicaId = [u8; 32];

/// The three phases of the pipeline.
#[derive(Clone, Copy, Debug, PartialEq, Eq, Structural)]
pub enum Phase {
    ReplicaDerivation,
    TreeCommitment,
    FinalProof,
}

/// How far a slot has come. A slot that is not recorded is idle.
#[derive(Clone, Copy, Debug, PartialEq, Eq, Structural)]
pub enum Stage {
    /// Replica derivation has started and has not answered yet.
    ReplicaDerivation,
    /// Replica derivation has succeeded; tree commitment may start.
    Derived,
    /// Tree commitment has started and has not answered yet.
    TreeCommitment,
    /// Tree commitment has succeeded; the sectors may be proved.
    FinalProof,
}

/// How far the final proof of one sector has come.
#[derive(Clone, Copy, Debug, PartialEq, Eq, Structural)]
pub enum SectorProof {
    Pending,
    Proving,
    Proved,
}

/// Why a phase may not start, or how it ended.
#[derive(Clone, Copy, Debug, PartialEq, Eq)]
pub enum SealError {
    /// A path holds a NUL byte.
    MalformedPath,
    /// The batch has no sector.
    NoSectors,
    /// There is not exactly one replica identifier per sector.
    ReplicaCountMismatch,
    /// The slot is empty or does not end within the storage.
    OutOfRange,
    /// The region overlaps a slot that is recorded.
    RegionInUse,
    /// The phase before has not been recorded as complete for this slot.
    PhaseOrder,
    /// The batch has no sector of that index.
    SectorOutOfRange,
    /// The final proof of the sector is under way or done.
    SectorNotPending,
    /// The native call answered with a non-zero status.
    PhaseFailed { phase: Phase, status: u32 },
}

/// Whether two regions of storage, each given by its start and its size in
/// blocks, share a block.
pub open spec fn regions_overlap(a_start: int, a_size: int, b_start: int, b_size: int) -> bool {
    a_start < b_start + b_size && b_start < a_start + a_size
}

/// The answers of the two storage queries: where the storage ends, and how
/// many blocks a slot of the batch at hand takes.
#[derive(Clone, Copy, Debug, PartialEq, Eq)]
pub struct Layout {
    pub max_block_offset: usize,
    pub slot_size: usize,
}

impl Layout {
    /// A slot that starts at `block_offset` is not empty and ends within the
    /// storage.
    pub open spec fn fits(&self, block_offset: usize) -> bool {
        self.slot_size >= 1 && block_offset + self.slot_size <= self.max_block_offset
    }

    /// Number of slots that fit side by side from the start of the storage.
    pub open spec fn capacity(&self) -> int {
        if self.slot_size >= 1 {
            self.max_block_offset as int / self.slot_size as int
        } else {
            0
        }
    }

    /// Says whether a slot may start at `block_offset`.
    pub fn admits(&self, block_offset: usize) -> (b: bool)
        ensures
            b == self.fits(block_offset),
    {
        self.slot_size >= 1 && self.slot_size <= self.max_block_offset && block_offset
            <= self.max_block_offset - self.slot_size
    }

    /// Number of slots that fit side by side from the start of the storage.
    pub fn slot_count(&self) -> (n: usize)
        ensures
            n == self.capacity(),
    {
        if self.slot_size >= 1 {
            self.max_block_offset / self.slot_size
        } else {
            0
        }
    }

    /// Block offset of the slot with the given index, counting slots side by
    /// side from the start of the storage; `None` past the last slot that
    /// fits.
    pub fn slot_offset(&self, index: usize) -> (r: Option<usize>)
        ensures
            index < self.capacity() ==> r == Some((index * self.slot_size) as usize),
            index >= self.capacity() ==> r is None,
            r matches Some(block_offset) ==> self.fits(block_offset),
    {
        if index >= self.slot_count() {
            return None;
        }
        proof {
            lemma_slot_within(*self, index as int);
        }
        Some(index * self.slot_size)
    }
}

/// A slot whose index is below the capacity ends within the storage.
pub proof fn lemma_slot_within(layout: Layout, index: int)
    requires
        0 <= index < layout.capacity(),
    ensures
        index * layout.slot_size + layout.slot_size <= layout.max_block_offset,
        0 <= index * layout.slot_size,
{
    let s = layout.slot_size as int;
    let m = layout.max_block_offset as int;
    assert(index * s + s <= m && 0 <= index * s) by (nonlinear_arith)
        requires
            s >= 1,
            0 <= index,
            index + 1 <= m / s,
            m >= 0,
    ;
}

/// Slots of different index do not overlap.
pub proof fn lemma_slots_disjoint(layout: Layout, i: int, j: int)
    requires
        0 <= i < j,
    ensures
        !regions_overlap(
            i * layout.slot_size,
            layout.slot_size as int,
            j * layout.slot_size,
            layout.slot_size as int,
        ),
{
    let s = layout.slot_size as int;
    assert(i * s + s <= j * s) by (nonlinear_arith)
        requires
            0 <= i < j,
            s >= 0,
    ;
}

/// What the record of one slot says.
pub struct SlotView {
    pub slot_size: usize,
    pub num_sectors: usize,
    pub stage: Stage,
    /// Where tree commitment writes; empty before it has started.
    pub output_dir: Seq<u8>,
    /// One entry per sector of the batch.
    pub sectors: Seq<SectorProof>,
}

/// The record of one slot.
#[derive(Debug, PartialEq, Eq)]
pub struct Slot {
    pub block_offset: usize,
    pub slot_size: usize,
    pub num_sectors: usize,
    pub stage: Stage,
    pub output_dir: Vec<u8>,
    pub sectors: Vec<SectorProof>,
}

impl View for Slot {
    type V = SlotView;

    open spec fn view(&self) -> SlotView {
        SlotView {
            slot_size: self.slot_size,
            num_sectors: self.num_sectors,
            stage: self.stage,
            output_dir: self.output_dir@,
            sectors: self.sectors@,
        }
    }
}

impl SlotView {
    /// A slot as replica derivation finds it.
    pub open spec fn fresh(slot_size: usize, num_sectors: usize, stage: Stage) -> SlotView {
        SlotView {
            slot_size,
            num_sectors,
            stage,
            output_dir: Seq::empty(),
            sectors: Seq::new(num_sectors as nat, |i: int| SectorProof::Pending),
        }
    }

    /// The same slot at another stage.
    pub open spec fn at_stage(self, stage: Stage) -> SlotView {
        SlotView { stage, ..self }
    }

    /// The same slot with another output directory.
    pub open spec fn with_output_dir(self, output_dir: Seq<u8>) -> SlotView {
        SlotView { output_dir, ..self }
    }

    /// The same slot with one sector at another state.
    pub open spec fn with_sector(self, sector_slot: int, state: SectorProof) -> SlotView {
        SlotView { sectors: self.sectors.update(sector_slot, state), ..self }
    }

    /// Every sector of the batch has its final proof.
    pub open spec fn all_proved(&self) -> bool {
        forall|i: int| 0 <= i < self.sectors.len() ==> self.sectors[i] == SectorProof::Proved
    }

    /// No native call is under way on the slot.
    pub open spec fn at_rest(&self) -> bool {
        &&& self.stage != Stage::ReplicaDerivation
        &&& self.stage != Stage::TreeCommitment
        &&& forall|i: int| 0 <= i < self.sectors.len() ==> self.sectors[i] != SectorProof::Proving
    }
}

impl Slot {
    /// The slot is not empty, ends within the address range, and has one
    /// entry per sector.
    pub open spec fn wf(&self) -> bool {
        &&& self.slot_size >= 1
        &&& self.num_sectors >= 1
        &&& self.block_offset + self.slot_size <= usize::MAX
        &&& self.sectors@.len() == self.num_sectors
    }
}

/// What replica derivation is handed.
#[derive(Debug, PartialEq, Eq)]
pub struct ReplicaDerivationCall {
    pub block_offset: usize,
    pub num_sectors: usize,
    /// The replica identifiers, 32 bytes each, one after the other.
    pub replica_ids: Vec<u8>,
    pub parents_filename: Vec<u8>,
}

/// What tree commitment is handed.
#[derive(Debug, PartialEq, Eq)]
pub struct TreeCommitmentCall {
    pub block_offset: usize,
    pub num_sectors: usize,
    pub output_dir: Vec<u8>,
}

/// What the cleanup after tree commitment is handed.
#[derive(Debug, PartialEq, Eq)]
pub struct CleanupCall {
    pub num_sectors: usize,
    pub output_dir: Vec<u8>,
}

/// What the final proof of one sector is handed.
#[derive(Debug, PartialEq, Eq)]
pub struct FinalProofCall {
    pub block_offset: usize,
    pub num_sectors: usize,
    pub sector_slot: usize,
    pub replica_id: [u8; 32],
    pub seed: [u8; 32],
    pub ticket: [u8; 32],
    pub cache_path: Vec<u8>,
    pub parents_filename: Vec<u8>,
    pub replica_path: Vec<u8>,
}

/// The identifiers laid out one after the other, 32 bytes each.
pub open spec fn flatten_ids(ids: Seq<ReplicaId>) -> Seq<u8> {
    Seq::new(32 * ids.len(), |k: int| ids[k / 32]@[k % 32])
}

/// Lays the identifiers out one after the other.
pub fn flatten_replica_ids(replica_ids: &Vec<ReplicaId>) -> (bytes: Vec<u8>)
    ensures
        bytes@ == flatten_ids(replica_ids@),
{
    let mut bytes: Vec<u8> = Vec::new();
    let mut i: usize = 0;
    while i < replica_ids.len()
        invariant
            i <= replica_ids.len(),
            bytes@.len() == 32 * i,
            forall|k: int| 0 <= k < 32 * i ==> bytes@[k] == replica_ids@[k / 32]@[k % 32],
        decreases replica_ids.len() - i,
    {
        let ghost before = bytes@;
        bytes.extend_from_slice(replica_ids[i].as_slice());
        assert forall|k: int| 0 <= k < 32 * (i + 1) implies bytes@[k] == replica_ids@[k / 32]@[k
            % 32] by {
            if k >= 32 * i {
                assert(k / 32 == i);
                assert(k % 32 == k - 32 * i);
            } else {
                assert(bytes@[k] == before[k]);
            }
        }
        i = i + 1;
    }
    assert(bytes@ =~= flatten_ids(replica_ids@));
    bytes
}

/// Reads the answer of a native phase call: zero is success, anything else
/// fails the phase.
pub fn check_phase_status(phase: Phase, status: u32) -> (r: Result<(), SealError>)
    ensures
        status == 0 ==> r is Ok,
        status != 0 ==> r == Err::<(), SealError>(SealError::PhaseFailed { phase, status }),
{
    if status == 0 {
        Ok(())
    } else {
        Err(SealError::PhaseFailed { phase, status })
    }
}

/// Whether the region overlaps a recorded slot.
pub open spec fn in_use(slots: Map<usize, SlotView>, start: usize, size: usize) -> bool {
    exists|o: usize| #[trigger]
        slots.contains_key(o) && regions_overlap(
            o as int,
            slots[o].slot_size as int,
            start as int,
            size as int,
        )
}

/// Records how far each slot has come. Slots are told apart by the block
/// offset at which they start.
#[derive(Debug, PartialEq, Eq)]
pub struct Orchestrator {
    pub slots: Vec<Slot>,
}

impl View for Orchestrator {
    type V = Map<usize, SlotView>;

    /// The recorded slots by block offset. An offset without a record is idle.
    open spec fn view(&self) -> Map<usize, SlotView> {
        Map::new(|o: usize| self.holds(o), |o: usize| self.slots[self.index_of(o)]@)
    }
}

impl Orchestrator {
    /// A slot that starts at `block_offset` is recorded.
    pub open spec fn holds(&self, block_offset: usize) -> bool {
        exists|i: int|
            0 <= i < self.slots.len() && #[trigger] self.slots[i].block_offset == block_offset
    }

    /// Where the record of the slot at `block_offset` is kept.
    pub open spec fn index_of(&self, block_offset: usize) -> int {
        choose|i: int|
            0 <= i < self.slots.len() && #[trigger] self.slots[i].block_offset == block_offset
    }

    /// Every record is sound and no two recorded slots overlap.
    pub open spec fn wf(&self) -> bool {
        &&& forall|i: int| 0 <= i < self.slots.len() ==> #[trigger] self.slots[i].wf()
        &&& forall|i: int, j: int|
            0 <= i < j < self.slots.len() ==> !regions_overlap(
                #[trigger] self.slots[i].block_offset as int,
                self.slots[i].slot_size as int,
                #[trigger] self.slots[j].block_offset as int,
                self.slots[j].slot_size as int,
            )
    }

    /// The record at index `i` is what the view holds for its offset.
    pub proof fn lemma_slot_in_view(&self, i: int)
        requires
            self.wf(),
            0 <= i < self.slots.len(),
        ensures
            self@.contains_key(self.slots[i].block_offset),
            self@[self.slots[i].block_offset] == self.slots[i]@,
            self.index_of(self.slots[i].block_offset) == i,
    {
        let o = self.slots[i].block_offset;
        assert(self.holds(o));
        let j = self.index_of(o);
        assert(self.slots[j].wf());
        assert(self.slots[i].wf());
        if i < j {
            assert(!regions_overlap(
                self.slots[i].block_offset as int,
                self.slots[i].slot_size as int,
                self.slots[j].block_offset as int,
                self.slots[j].slot_size as int,
            ));
        } else if j < i {
            assert(!regions_overlap(
                self.slots[j].block_offset as int,
                self.slots[j].slot_size as int,
                self.slots[i].block_offset as int,
                self.slots[i].slot_size as int,
            ));
        }
    }

    /// Changing one record in place, at the same offset and size, replaces
    /// its entry in the view.
    pub proof fn lemma_view_update(before: Orchestrator, after: Orchestrator, i: int)
        requires
            before.wf(),
            0 <= i < before.slots.len(),
            after.slots.len() == before.slots.len(),
            forall|j: int| 0 <= j < before.slots.len() && j != i ==> after.slots[j] == before.slots[j],
            after.slots[i].block_offset == before.slots[i].block_offset,
            after.slots[i].slot_size == before.slots[i].slot_size,
            after.slots[i].wf(),
        ensures
            after.wf(),
            after@ == before@.insert(after.slots[i].block_offset, after.slots[i]@),
    {
        assert forall|a: int, b: int| 0 <= a < b < after.slots.len() implies !regions_overlap(
            #[trigger] after.slots[a].block_offset as int,
            after.slots[a].slot_size as int,
            #[trigger] after.slots[b].block_offset as int,
            after.slots[b].slot_size as int,
        ) by {
            assert(!regions_overlap(
                before.slots[a].block_offset as int,
                before.slots[a].slot_size as int,
                before.slots[b].block_offset as int,
                before.slots[b].slot_size as int,
            ));
        }
        assert forall|j: int| 0 <= j < after.slots.len() implies #[trigger] after.slots[j].wf() by {
            if j != i {
                assert(before.slots[j].wf());
            }
        }
        let off = after.slots[i].block_offset;
        let target = before@.insert(off, after.slots[i]@);
        assert forall|k: usize| after@.contains_key(k) <==> target.contains_key(k) by {
            if after.holds(k) {
                let j = after.index_of(k);
                assert(before.slots[j].block_offset == k);
            }
            if before.holds(k) {
                let j = before.index_of(k);
                assert(after.slots[j].block_offset == k);
            }
            assert(after.slots[i].block_offset == off);
        }
        assert forall|k: usize| after@.contains_key(k) implies after@[k] == target[k] by {
            let j = after.index_of(k);
            after.lemma_slot_in_view(j);
            if j != i {
                before.lemma_slot_in_view(j);
                before.lemma_slot_in_view(i);
            }
        }
        assert(after@ =~= target);
    }

    /// Recording a slot that overlaps no recorded one adds its entry to the
    /// view.
    pub proof fn lemma_view_push(before: Orchestrator, after: Orchestrator, slot: Slot)
        requires
            before.wf(),
            slot.wf(),
            after.slots@ == before.slots@.push(slot),
            !in_use(before@, slot.block_offset, slot.slot_size),
        ensures
            after.wf(),
            after@ == before@.insert(slot.block_offset, slot@),
    {
        let n = before.slots.len() as int;
        assert forall|a: int, b: int| 0 <= a < b < after.slots.len() implies !regions_overlap(
            #[trigger] after.slots[a].block_offset as int,
            after.slots[a].slot_size as int,
            #[trigger] after.slots[b].block_offset as int,
            after.slots[b].slot_size as int,
        ) by {
            if b < n {
                assert(!regions_overlap(
                    before.slots[a].block_offset as int,
                    before.slots[a].slot_size as int,
                    before.slots[b].block_offset as int,
                    before.slots[b].slot_size as int,
                ));
            } else {
                before.lemma_slot_in_view(a);
                assert(before@.contains_key(before.slots[a].block_offset));
            }
        }
        assert forall|j: int| 0 <= j < after.slots.len() implies #[trigger] after.slots[j].wf() by {
            if j < n {
                assert(before.slots[j].wf());
            }
        }
        let off = slot.block_offset;
        let target = before@.insert(off, slot@);
        assert forall|k: usize| after@.contains_key(k) <==> target.contains_key(k) by {
            if after.holds(k) {
                let j = after.index_of(k);
                if j < n {
                    assert(before.slots[j].block_offset == k);
                }
            }
            if before.holds(k) {
                let j = before.index_of(k);
                assert(after.slots[j].block_offset == k);
            }
            assert(after.slots[n].block_offset == off);
        }
        assert forall|k: usize| after@.contains_key(k) implies after@[k] == target[k] by {
            let j = after.index_of(k);
            after.lemma_slot_in_view(j);
            after.lemma_slot_in_view(n);
            if j < n {
                before.lemma_slot_in_view(j);
            }
        }
        assert(after@ =~= target);
    }

    /// Dropping a record removes its entry from the view.
    pub proof fn lemma_view_remove(before: Orchestrator, after: Orchestrator, i: int)
        requires
            before.wf(),
            0 <= i < before.slots.len(),
            after.slots@ == before.slots@.remove(i),
        ensures
            after.wf(),
            after@ == before@.remove(before.slots[i].block_offset),
    {
        let shift = |j: int| if j < i { j } else { j + 1 };
        assert forall|j: int| 0 <= j < after.slots.len() implies after.slots[j]
            == before.slots[shift(j)] by {}
        assert forall|a: int, b: int| 0 <= a < b < after.slots.len() implies !regions_overlap(
            #[trigger] after.slots[a].block_offset as int,
            after.slots[a].slot_size as int,
            #[trigger] after.slots[b].block_offset as int,
            after.slots[b].slot_size as int,
        ) by {
            assert(!regions_overlap(
                before.slots[shift(a)].block_offset as int,
                before.slots[shift(a)].slot_size as int,
                before.slots[shift(b)].block_offset as int,
                before.slots[shift(b)].slot_size as int,
            ));
        }
        assert forall|j: int| 0 <= j < after.slots.len() implies #[trigger] after.slots[j].wf() by {
            assert(before.slots[shift(j)].wf());
        }
        let off = before.slots[i].block_offset;
        let target = before@.remove(off);
        before.lemma_slot_in_view(i);
        assert forall|k: usize| after@.contains_key(k) <==> target.contains_key(k) by {
            if after.holds(k) {
                let j = after.index_of(k);
                assert(before.slots[shift(j)].block_offset == k);
                before.lemma_slot_in_view(shift(j));
            }
            if before.holds(k) && k != off {
                let j = before.index_of(k);
                if j < i {
                    assert(after.slots[j].block_offset == k);
                } else {
                    assert(after.slots[j - 1].block_offset == k);
                }
            }
        }
        assert forall|k: usize| after@.contains_key(k) implies after@[k] == target[k] by {
            let j = after.index_of(k);
            after.lemma_slot_in_view(j);
            before.lemma_slot_in_view(shift(j));
        }
        assert(after@ =~= target);
    }

    /// An orchestrator with every slot idle.
    pub fn new() -> (orch: Orchestrator)
        ensures
            orch.wf(),
            orch@ == Map::<usize, SlotView>::empty(),
    {
        let orch = Orchestrator { slots: Vec::new() };
        assert(orch@ =~= Map::<usize, SlotView>::empty());
        orch
    }

    /// Says whether the records are sound: each of them in itself, and no
    /// two of them overlapping.
    pub fn is_sound(&self) -> (b: bool)
        ensures
            b == self.wf(),
    {
        let n: usize = self.slots.len();
        let mut i: usize = 0;
        while i < n
            invariant
                i <= n,
                n == self.slots.len(),
                forall|a: int| 0 <= a < i ==> #[trigger] self.slots[a].wf(),
                forall|a: int, b: int|
                    0 <= a < b < n && a < i ==> !regions_overlap(
                        #[trigger] self.slots[a].block_offset as int,
                        self.slots[a].slot_size as int,
                        #[trigger] self.slots[b].block_offset as int,
                        self.slots[b].slot_size as int,
                    ),
            decreases n - i,
        {
            let slot = &self.slots[i];
            if slot.slot_size < 1 || slot.num_sectors < 1 || slot.slot_size > usize::MAX
                - slot.block_offset || slot.sectors.len() != slot.num_sectors {
                assert(!self.slots[i as int].wf());
                return false;
            }
            let mut j: usize = i + 1;
            while j < n
                invariant
                    i < j <= n,
                    n == self.slots.len(),
                    self.slots[i as int].wf(),
                    forall|b: int|
                        i < b < j ==> !regions_overlap(
                            self.slots[i as int].block_offset as int,
                            self.slots[i as int].slot_size as int,
                            #[trigger] self.slots[b].block_offset as int,
                            self.slots[b].slot_size as int,
                        ),
                decreases n - j,
            {
                let first = &self.slots[i];
                let other = &self.slots[j];
                if other.slot_size > usize::MAX - other.block_offset {
                    assert(!self.slots[j as int].wf());
                    return false;
                }
                if first.block_offset < other.block_offset + other.slot_size && other.block_offset
                    < first.block_offset + first.slot_size {
                    assert(regions_overlap(
                        self.slots[i as int].block_offset as int,
                        self.slots[i as int].slot_size as int,
                        self.slots[j as int].block_offset as int,
                        self.slots[j as int].slot_size as int,
                    ));
                    return false;
                }
                j = j + 1;
            }
            i = i + 1;
        }
        true
    }

    /// Where the record of the slot at `block_offset` is kept, if there is
    /// one.
    pub fn find(&self, block_offset: usize) -> (r: Option<usize>)
        requires
            self.wf(),
        ensures
            r is Some <==> self@.contains_key(block_offset),
            r matches Some(i) ==> i < self.slots.len() && self.slots[i as int].block_offset
                == block_offset && self@[block_offset] == self.slots[i as int]@,
    {
        let mut i: usize = 0;
        while i < self.slots.len()
            invariant
                i <= self.slots.len(),
                self.wf(),
                forall|j: int| 0 <= j < i ==> self.slots[j].block_offset != block_offset,
            decreases self.slots.len() - i,
        {
            if self.slots[i].block_offset == block_offset {
                proof {
                    self.lemma_slot_in_view(i as int);
                }
                return Some(i);
            }
            i = i + 1;
        }
        None
    }

    /// Says whether the region overlaps a recorded slot.
    pub fn region_in_use(&self, start: usize, size: usize) -> (b: bool)
        requires
            self.wf(),
            start + size <= usize::MAX,
        ensures
            b == in_use(self@, start, size),
    {
        let mut i: usize = 0;
        while i < self.slots.len()
            invariant
                i <= self.slots.len(),
                self.wf(),
                start + size <= usize::MAX,
                forall|j: int|
                    0 <= j < i ==> !regions_overlap(
                        #[trigger] self.slots[j].block_offset as int,
                        self.slots[j].slot_size as int,
                        start as int,
                        size as int,
                    ),
            decreases self.slots.len() - i,
        {
            assert(self.slots[i as int].wf());
            let slot = &self.slots[i];
            if slot.block_offset < start + size && start < slot.block_offset + slot.slot_size {
                proof {
                    self.lemma_slot_in_view(i as int);
                }
                return true;
            }
            i = i + 1;
        }
        proof {
            if in_use(self@, start, size) {
                let o = choose|o: usize| #[trigger]
                    self@.contains_key(o) && regions_overlap(
                        o as int,
                        self@[o].slot_size as int,
                        start as int,
                        size as int,
                    );
                let j = self.index_of(o);
                self.lemma_slot_in_view(j);
            }
        }
        false
    }

    /// How far the slot at `block_offset` has come; `None` for an idle slot.
    pub fn stage_of(&self, block_offset: usize) -> (r: Option<Stage>)
        requires
            self.wf(),
        ensures
            r == if self@.contains_key(block_offset) {
                Some(self@[block_offset].stage)
            } else {
                None
            },
    {
        match self.find(block_offset) {
            Some(i) => Some(self.slots[i].stage),
            None => None,
        }
    }

    /// How far the final proof of one sector has come; `None` for an idle
    /// slot or a sector that the batch does not have.
    pub fn sector_state(&self, block_offset: usize, sector_slot: usize) -> (r: Option<SectorProof>)
        requires
            self.wf(),
        ensures
            r == if self@.contains_key(block_offset) && sector_slot
                < self@[block_offset].sectors.len() {
                Some(self@[block_offset].sectors[sector_slot as int])
            } else {
                None
            },
    {
        match self.find(block_offset) {
            Some(i) => {
                if sector_slot < self.slots[i].sectors.len() {
                    Some(self.slots[i].sectors[sector_slot])
                } else {
                    None
                }
            },
            None => None,
        }
    }
}

/// The first rule that stands against recording a new slot, if any.
pub open spec fn placement_error(
    slots: Map<usize, SlotView>,
    layout: Layout,
    block_offset: usize,
    num_sectors: usize,
) -> Option<SealError> {
    if num_sectors == 0 {
        Some(SealError::NoSectors)
    } else if !layout.fits(block_offset) {
        Some(SealError::OutOfRange)
    } else if in_use(slots, block_offset, layout.slot_size) {
        Some(SealError::RegionInUse)
    } else {
        None
    }
}

/// The first rule that stands against starting replica derivation, if any.
pub open spec fn pc1_error(
    slots: Map<usize, SlotView>,
    layout: Layout,
    block_offset: usize,
    num_sectors: usize,
    replica_ids: Seq<ReplicaId>,
    path: Seq<u8>,
) -> Option<SealError> {
    if !is_native_path(path) {
        Some(SealError::MalformedPath)
    } else if num_sectors != 0 && replica_ids.len() != num_sectors {
        Some(SealError::ReplicaCountMismatch)
    } else {
        placement_error(slots, layout, block_offset, num_sectors)
    }
}

/// The slot at `block_offset` holds a batch of `num_sectors` sectors and is
/// at `stage`.
pub open spec fn slot_at_stage(
    slots: Map<usize, SlotView>,
    block_offset: usize,
    num_sectors: usize,
    stage: Stage,
) -> bool {
    &&& slots.contains_key(block_offset)
    &&& slots[block_offset].num_sectors == num_sectors
    &&& slots[block_offset].stage == stage
}

/// The slot at `block_offset` is recorded at `stage`.
pub open spec fn slot_is_at(slots: Map<usize, SlotView>, block_offset: usize, stage: Stage) -> bool {
    slots.contains_key(block_offset) && slots[block_offset].stage == stage
}

/// The final proof of the sector `sector_slot` of the slot at `block_offset`
/// is under way.
pub open spec fn sector_is_proving(
    slots: Map<usize, SlotView>,
    block_offset: usize,
    sector_slot: usize,
) -> bool {
    &&& slot_is_at(slots, block_offset, Stage::FinalProof)
    &&& sector_slot < slots[block_offset].sectors.len()
    &&& slots[block_offset].sectors[sector_slot as int] == SectorProof::Proving
}

/// The first rule that stands against starting tree commitment, if any.
pub open spec fn pc2_error(
    slots: Map<usize, SlotView>,
    block_offset: usize,
    num_sectors: usize,
    output_dir: Seq<u8>,
) -> Option<SealError> {
    if !is_native_path(output_dir) {
        Some(SealError::MalformedPath)
    } else if !slot_at_stage(slots, block_offset, num_sectors, Stage::Derived) {
        Some(SealError::PhaseOrder)
    } else {
        None
    }
}

/// Some slot holds a batch of `num_sectors` sectors whose commitments were
/// written to `output_dir`.
pub open spec fn committed_to(
    slots: Map<usize, SlotView>,
    num_sectors: usize,
    output_dir: Seq<u8>,
) -> bool {
    exists|o: usize| #[trigger]
        slots.contains_key(o) && slots[o].stage == Stage::FinalProof && slots[o].num_sectors
            == num_sectors && slots[o].output_dir == output_dir
}

/// The first rule that stands against the cleanup, if any.
pub open spec fn pc2_cleanup_error(
    slots: Map<usize, SlotView>,
    num_sectors: usize,
    output_dir: Seq<u8>,
) -> Option<SealError> {
    if !is_native_path(output_dir) {
        Some(SealError::MalformedPath)
    } else if !committed_to(slots, num_sectors, output_dir) {
        Some(SealError::PhaseOrder)
    } else {
        None
    }
}

/// The first rule that stands against starting the final proof of a sector,
/// if any.
pub open spec fn c1_error(
    slots: Map<usize, SlotView>,
    block_offset: usize,
    num_sectors: usize,
    sector_slot: usize,
    cache_path: Seq<u8>,
    parents_filename: Seq<u8>,
    replica_path: Seq<u8>,
) -> Option<SealError> {
    if !is_native_path(cache_path) || !is_native_path(parents_filename) || !is_native_path(
        replica_path,
    ) {
        Some(SealError::MalformedPath)
    } else if !slot_at_stage(slots, block_offset, num_sectors, Stage::FinalProof) {
        Some(SealError::PhaseOrder)
    } else if sector_slot >= num_sectors {
        Some(SealError::SectorOutOfRange)
    } else if slots[block_offset].sectors[sector_slot as int] != SectorProof::Pending {
        Some(SealError::SectorNotPending)
    } else {
        None
    }
}

/// The first rule that stands against taking over a slot whose earlier
/// phases were completed before, if any.
pub open spec fn adopt_error(
    slots: Map<usize, SlotView>,
    layout: Layout,
    block_offset: usize,
    num_sectors: usize,
    stage: Stage,
    output_dir: Seq<u8>,
) -> Option<SealError> {
    if !is_native_path(output_dir) {
        Some(SealError::MalformedPath)
    } else if stage == Stage::ReplicaDerivation || stage == Stage::TreeCommitment {
        Some(SealError::PhaseOrder)
    } else {
        placement_error(slots, layout, block_offset, num_sectors)
    }
}

/// Phase order: tree commitment is refused for a slot on which replica
/// derivation is not recorded as complete, and the final proof of a sector is
/// refused for a slot on which tree commitment is not recorded as complete.
/// An idle slot is such a slot for both.
pub proof fn lemma_phase_order(
    slots: Map<usize, SlotView>,
    block_offset: usize,
    num_sectors: usize,
    sector_slot: usize,
    output_dir: Seq<u8>,
    cache_path: Seq<u8>,
    parents_filename: Seq<u8>,
    replica_path: Seq<u8>,
)
    ensures
        !slot_is_at(slots, block_offset, Stage::Derived) ==> pc2_error(
            slots,
            block_offset,
            num_sectors,
            output_dir,
        ) is Some,
        !slot_is_at(slots, block_offset, Stage::FinalProof) ==> c1_error(
            slots,
            block_offset,
            num_sectors,
            sector_slot,
            cache_path,
            parents_filename,
            replica_path,
        ) is Some,
{
}

/// A list of `num_sectors` sectors, none of them proved.
pub fn pending_sectors(num_sectors: usize) -> (sectors: Vec<SectorProof>)
    ensures
        sectors@ == Seq::new(num_sectors as nat, |i: int| SectorProof::Pending),
{
    let mut sectors: Vec<SectorProof> = Vec::new();
    let mut i: usize = 0;
    while i < num_sectors
        invariant
            i <= num_sectors,
            sectors@.len() == i,
            forall|j: int| 0 <= j < i ==> sectors@[j] == SectorProof::Pending,
        decreases num_sectors - i,
    {
        sectors.push(SectorProof::Pending);
        i = i + 1;
    }
    assert(sectors@ =~= Seq::new(num_sectors as nat, |i: int| SectorProof::Pending));
    sectors
}

/// Checks the configuration path and starts with every slot idle.
pub fn init(config: &[u8]) -> (r: Result<Orchestrator, SealError>)
    ensures
        !is_native_path(config@) ==> r == Err::<Orchestrator, SealError>(SealError::MalformedPath),
        is_native_path(config@) ==> r is Ok,
        r matches Ok(orch) ==> orch.wf() && orch@ == Map::<usize, SlotView>::empty(),
{
    if !check_native_path(config) {
        return Err(SealError::MalformedPath);
    }
    Ok(Orchestrator::new())
}

/// Decides whether a new slot may be recorded.
fn check_placement(
    orch: &Orchestrator,
    layout: &Layout,
    block_offset: usize,
    num_sectors: usize,
) -> (r: Option<SealError>)
    requires
        orch.wf(),
    ensures
        r == placement_error(orch@, *layout, block_offset, num_sectors),
{
    if num_sectors == 0 {
        return Some(SealError::NoSectors);
    }
    if !layout.admits(block_offset) {
        return Some(SealError::OutOfRange);
    }
    if orch.region_in_use(block_offset, layout.slot_size) {
        return Some(SealError::RegionInUse);
    }
    None
}

/// Records a new slot at `stage`.
fn record_slot(
    orch: &mut Orchestrator,
    layout: &Layout,
    block_offset: usize,
    num_sectors: usize,
    stage: Stage,
    output_dir: Vec<u8>,
)
    requires
        old(orch).wf(),
        placement_error(old(orch)@, *layout, block_offset, num_sectors) is None,
    ensures
        final(orch).wf(),
        final(orch)@ == old(orch)@.insert(
            block_offset,
            SlotView::fresh(layout.slot_size, num_sectors, stage).with_output_dir(output_dir@),
        ),
{
    let ghost before = *orch;
    let slot = Slot {
        block_offset,
        slot_size: layout.slot_size,
        num_sectors,
        stage,
        output_dir,
        sectors: pending_sectors(num_sectors),
    };
    let ghost recorded = slot;
    orch.slots.push(slot);
    proof {
        Orchestrator::lemma_view_push(before, *orch, recorded);
    }
}

/// Starts replica derivation for a batch of `num_sectors` sectors in the
/// slot at `block_offset`. The slot must fit the storage as `layout` gives
/// it and overlap no recorded slot, and there must be one replica identifier
/// per sector. The answer is what the native call is handed.
pub fn pc1(
    orch: &mut Orchestrator,
    layout: &Layout,
    block_offset: usize,
    num_sectors: usize,
    replica_ids: Vec<ReplicaId>,
    path: &[u8],
) -> (r: Result<ReplicaDerivationCall, SealError>)
    requires
        old(orch).wf(),
    ensures
        final(orch).wf(),
        match pc1_error(old(orch)@, *layout, block_offset, num_sectors, replica_ids@, path@) {
            Some(e) => {
                &&& r == Err::<ReplicaDerivationCall, SealError>(e)
                &&& final(orch)@ == old(orch)@
            },
            None => {
                &&& r matches Ok(call)
                &&& call.block_offset == block_offset
                &&& call.num_sectors == num_sectors
                &&& call.replica_ids@ == flatten_ids(replica_ids@)
                &&& call.parents_filename@ == path@
                &&& final(orch)@ == old(orch)@.insert(
                    block_offset,
                    SlotView::fresh(layout.slot_size, num_sectors, Stage::ReplicaDerivation),
                )
            },
        },
{
    if !check_native_path(path) {
        return Err(SealError::MalformedPath);
    }
    if num_sectors != 0 && replica_ids.len() != num_sectors {
        return Err(SealError::ReplicaCountMismatch);
    }
    if let Some(e) = check_placement(orch, layout, block_offset, num_sectors) {
        return Err(e);
    }
    record_slot(orch, layout, block_offset, num_sectors, Stage::ReplicaDerivation, Vec::new());
    Ok(
        ReplicaDerivationCall {
            block_offset,
            num_sectors,
            replica_ids: flatten_replica_ids(&replica_ids),
            parents_filename: slice_to_vec(path),
        },
    )
}

/// Records the answer of replica derivation for the slot at `block_offset`.
/// Success lets tree commitment start. A failure leaves the slot idle: the
/// phase is to be run again from the start.
pub fn pc1_done(orch: &mut Orchestrator, block_offset: usize, status: u32) -> (r: Result<
    (),
    SealError,
>)
    requires
        old(orch).wf(),
    ensures
        final(orch).wf(),
        if !slot_is_at(old(orch)@, block_offset, Stage::ReplicaDerivation) {
            r == Err::<(), SealError>(SealError::PhaseOrder) && final(orch)@ == old(orch)@
        } else if status == 0 {
            r is Ok && final(orch)@ == old(orch)@.insert(
                block_offset,
                old(orch)@[block_offset].at_stage(Stage::Derived),
            )
        } else {
            r == Err::<(), SealError>(
                SealError::PhaseFailed { phase: Phase::ReplicaDerivation, status },
            ) && final(orch)@ == old(orch)@.remove(block_offset)
        },
{
    let i = match orch.find(block_offset) {
        Some(i) => i,
        None => {
            return Err(SealError::PhaseOrder);
        },
    };
    if orch.slots[i].stage != Stage::ReplicaDerivation {
        return Err(SealError::PhaseOrder);
    }
    let ghost before = *orch;
    assert(orch.slots[i as int].wf());
    if status == 0 {
        orch.slots[i].stage = Stage::Derived;
        proof {
            Orchestrator::lemma_view_update(before, *orch, i as int);
        }
        Ok(())
    } else {
        orch.slots.remove(i);
        proof {
            Orchestrator::lemma_view_remove(before, *orch, i as int);
        }
        Err(SealError::PhaseFailed { phase: Phase::ReplicaDerivation, status })
    }
}

/// Starts tree commitment for the batch in the slot at `block_offset`.
/// Replica derivation must have been recorded as complete for exactly this
/// slot and batch. The answer is what the native call is handed.
pub fn pc2(orch: &mut Orchestrator, block_offset: usize, num_sectors: usize, path: &[u8]) -> (r:
    Result<TreeCommitmentCall, SealError>)
    requires
        old(orch).wf(),
    ensures
        final(orch).wf(),
        match pc2_error(old(orch)@, block_offset, num_sectors, path@) {
            Some(e) => {
                &&& r == Err::<TreeCommitmentCall, SealError>(e)
                &&& final(orch)@ == old(orch)@
            },
            None => {
                &&& r matches Ok(call)
                &&& call.block_offset == block_offset
                &&& call.num_sectors == num_sectors
                &&& call.output_dir@ == path@
                &&& final(orch)@ == old(orch)@.insert(
                    block_offset,
                    old(orch)@[block_offset].at_stage(Stage::TreeCommitment).with_output_dir(
                        path@,
                    ),
                )
            },
        },
{
    if !check_native_path(path) {
        return Err(SealError::MalformedPath);
    }
    let i = match orch.find(block_offset) {
        Some(i) => i,
        None => {
            return Err(SealError::PhaseOrder);
        },
    };
    if orch.slots[i].num_sectors != num_sectors || orch.slots[i].stage != Stage::Derived {
        return Err(SealError::PhaseOrder);
    }
    let ghost before = *orch;
    assert(orch.slots[i as int].wf());
    orch.slots[i].stage = Stage::TreeCommitment;
    orch.slots[i].output_dir = slice_to_vec(path);
    proof {
        Orchestrator::lemma_view_update(before, *orch, i as int);
    }
    Ok(TreeCommitmentCall { block_offset, num_sectors, output_dir: slice_to_vec(path) })
}

/// Records the answer of tree commitment for the slot at `block_offset`.
/// Success lets the sectors be proved. A failure puts the slot back to where
/// tree commitment may start again.
pub fn pc2_done(orch: &mut Orchestrator, block_offset: usize, status: u32) -> (r: Result<
    (),
    SealError,
>)
    requires
        old(orch).wf(),
    ensures
        final(orch).wf(),
        if !slot_is_at(old(orch)@, block_offset, Stage::TreeCommitment) {
            r == Err::<(), SealError>(SealError::PhaseOrder) && final(orch)@ == old(orch)@
        } else if status == 0 {
            r is Ok && final(orch)@ == old(orch)@.insert(
                block_offset,
                old(orch)@[block_offset].at_stage(Stage::FinalProof),
            )
        } else {
            r == Err::<(), SealError>(
                SealError::PhaseFailed { phase: Phase::TreeCommitment, status },
            ) && final(orch)@ == old(orch)@.insert(
                block_offset,
                old(orch)@[block_offset].at_stage(Stage::Derived),
            )
        },
{
    let i = match orch.find(block_offset) {
        Some(i) => i,
        None => {
            return Err(SealError::PhaseOrder);
        },
    };
    if orch.slots[i].stage != Stage::TreeCommitment {
        return Err(SealError::PhaseOrder);
    }
    let ghost before = *orch;
    assert(orch.slots[i as int].wf());
    if status == 0 {
        orch.slots[i].stage = Stage::FinalProof;
        proof {
            Orchestrator::lemma_view_update(before, *orch, i as int);
        }
        Ok(())
    } else {
        orch.slots[i].stage = Stage::Derived;
        proof {
            Orchestrator::lemma_view_update(before, *orch, i as int);
        }
        Err(SealError::PhaseFailed { phase: Phase::TreeCommitment, status })
    }
}

/// Admits the cleanup of what tree commitment left behind: the commitments
/// of a batch of `num_sectors` sectors must have been written to `path`.
/// The answer is what the native call is handed.
pub fn pc2_cleanup(orch: &Orchestrator, num_sectors: usize, path: &[u8]) -> (r: Result<
    CleanupCall,
    SealError,
>)
    requires
        orch.wf(),
    ensures
        match pc2_cleanup_error(orch@, num_sectors, path@) {
            Some(e) => r == Err::<CleanupCall, SealError>(e),
            None => {
                &&& r matches Ok(call)
                &&& call.num_sectors == num_sectors
                &&& call.output_dir@ == path@
            },
        },
{
    if !check_native_path(path) {
        return Err(SealError::MalformedPath);
    }
    let mut i: usize = 0;
    while i < orch.slots.len()
        invariant
            i <= orch.slots.len(),
            orch.wf(),
            is_native_path(path@),
            forall|j: int|
                0 <= j < i ==> !(#[trigger] orch.slots[j].stage == Stage::FinalProof
                    && orch.slots[j].num_sectors == num_sectors && orch.slots[j].output_dir@
                    == path@),
        decreases orch.slots.len() - i,
    {
        let slot = &orch.slots[i];
        if slot.stage == Stage::FinalProof && slot.num_sectors == num_sectors && same_path(
            slot.output_dir.as_slice(),
            path,
        ) {
            proof {
                orch.lemma_slot_in_view(i as int);
                assert(orch@.contains_key(slot.block_offset));
            }
            return Ok(CleanupCall { num_sectors, output_dir: slice_to_vec(path) });
        }
        i = i + 1;
    }
    proof {
        if committed_to(orch@, num_sectors, path@) {
            let o = choose|o: usize| #[trigger]
                orch@.contains_key(o) && orch@[o].stage == Stage::FinalProof
                    && orch@[o].num_sectors == num_sectors && orch@[o].output_dir == path@;
            let j = orch.index_of(o);
            orch.lemma_slot_in_view(j);
            assert(orch.slots[j].stage == Stage::FinalProof);
        }
    }
    Err(SealError::PhaseOrder)
}

/// Starts the final proof of the sector `sector_slot` of the batch in the
/// slot at `block_offset`. Tree commitment must have been recorded as
/// complete for exactly this slot and batch, and the sector must not have
/// been proved or be under way. The answer is what the native call is
/// handed.
pub fn c1(
    orch: &mut Orchestrator,
    block_offset: usize,
    num_sectors: usize,
    sector_slot: usize,
    replica_id: &[u8; 32],
    seed: &[u8; 32],
    ticket: &[u8; 32],
    cache_path: &[u8],
    parents_filename: &[u8],
    replica_path: &[u8],
) -> (r: Result<FinalProofCall, SealError>)
    requires
        old(orch).wf(),
    ensures
        final(orch).wf(),
        match c1_error(
            old(orch)@,
            block_offset,
            num_sectors,
            sector_slot,
            cache_path@,
            parents_filename@,
            replica_path@,
        ) {
            Some(e) => {
                &&& r == Err::<FinalProofCall, SealError>(e)
                &&& final(orch)@ == old(orch)@
            },
            None => {
                &&& r matches Ok(call)
                &&& call.block_offset == block_offset
                &&& call.num_sectors == num_sectors
                &&& call.sector_slot == sector_slot
                &&& call.replica_id == *replica_id
                &&& call.seed == *seed
                &&& call.ticket == *ticket
                &&& call.cache_path@ == cache_path@
                &&& call.parents_filename@ == parents_filename@
                &&& call.replica_path@ == replica_path@
                &&& final(orch)@ == old(orch)@.insert(
                    block_offset,
                    old(orch)@[block_offset].with_sector(
                        sector_slot as int,
                        SectorProof::Proving,
                    ),
                )
            },
        },
{
    if !check_native_path(cache_path) || !check_native_path(parents_filename)
        || !check_native_path(replica_path) {
        return Err(SealError::MalformedPath);
    }
    let i = match orch.find(block_offset) {
        Some(i) => i,
        None => {
            return Err(SealError::PhaseOrder);
        },
    };
    if orch.slots[i].num_sectors != num_sectors || orch.slots[i].stage != Stage::FinalProof {
        return Err(SealError::PhaseOrder);
    }
    if sector_slot >= num_sectors {
        return Err(SealError::SectorOutOfRange);
    }
    assert(orch.slots[i as int].wf());
    if orch.slots[i].sectors[sector_slot] != SectorProof::Pending {
        return Err(SealError::SectorNotPending);
    }
    let ghost before = *orch;
    orch.slots[i].sectors[sector_slot] = SectorProof::Proving;
    proof {
        Orchestrator::lemma_view_update(before, *orch, i as int);
    }
    Ok(
        FinalProofCall {
            block_offset,
            num_sectors,
            sector_slot,
            replica_id: *replica_id,
            seed: *seed,
            ticket: *ticket,
            cache_path: slice_to_vec(cache_path),
            parents_filename: slice_to_vec(parents_filename),
            replica_path: slice_to_vec(replica_path),
        },
    )
}

/// Records the answer of the final proof of one sector. Success marks the
/// sector as proved. A failure puts it back to where its proof may start
/// again.
pub fn c1_done(orch: &mut Orchestrator, block_offset: usize, sector_slot: usize, status: u32) -> (r:
    Result<(), SealError>)
    requires
        old(orch).wf(),
    ensures
        final(orch).wf(),
        if !sector_is_proving(old(orch)@, block_offset, sector_slot) {
            r == Err::<(), SealError>(SealError::PhaseOrder) && final(orch)@ == old(orch)@
        } else if status == 0 {
            r is Ok && final(orch)@ == old(orch)@.insert(
                block_offset,
                old(orch)@[block_offset].with_sector(sector_slot as int, SectorProof::Proved),
            )
        } else {
            r == Err::<(), SealError>(SealError::PhaseFailed { phase: Phase::FinalProof, status })
                && final(orch)@ == old(orch)@.insert(
                block_offset,
                old(orch)@[block_offset].with_sector(sector_slot as int, SectorProof::Pending),
            )
        },
{
    let i = match orch.find(block_offset) {
        Some(i) => i,
        None => {
            return Err(SealError::PhaseOrder);
        },
    };
    if orch.slots[i].stage != Stage::FinalProof || sector_slot >= orch.slots[i].sectors.len() {
        return Err(SealError::PhaseOrder);
    }
    if orch.slots[i].sectors[sector_slot] != SectorProof::Proving {
        return Err(SealError::PhaseOrder);
    }
    let ghost before = *orch;
    assert(orch.slots[i as int].wf());
    if status == 0 {
        orch.slots[i].sectors[sector_slot] = SectorProof::Proved;
        proof {
            Orchestrator::lemma_view_update(before, *orch, i as int);
        }
        Ok(())
    } else {
        orch.slots[i].sectors[sector_slot] = SectorProof::Pending;
        proof {
            Orchestrator::lemma_view_update(before, *orch, i as int);
        }
        Err(SealError::PhaseFailed { phase: Phase::FinalProof, status })
    }
}

/// Takes over a slot whose earlier phases were completed before this
/// orchestrator existed: the caller vouches that the slot is at `stage`,
/// and that tree commitment, if it has run, wrote to `output_dir`. Only a
/// stage at which no native call is under way can be taken over.
pub fn adopt(
    orch: &mut Orchestrator,
    layout: &Layout,
    block_offset: usize,
    num_sectors: usize,
    stage: Stage,
    output_dir: &[u8],
) -> (r: Result<(), SealError>)
    requires
        old(orch).wf(),
    ensures
        final(orch).wf(),
        match adopt_error(old(orch)@, *layout, block_offset, num_sectors, stage, output_dir@) {
            Some(e) => r == Err::<(), SealError>(e) && final(orch)@ == old(orch)@,
            None => r is Ok && final(orch)@ == old(orch)@.insert(
                block_offset,
                SlotView::fresh(layout.slot_size, num_sectors, stage).with_output_dir(
                    output_dir@,
                ),
            ),
        },
{
    if !check_native_path(output_dir) {
        return Err(SealError::MalformedPath);
    }
    if stage == Stage::ReplicaDerivation || stage == Stage::TreeCommitment {
        return Err(SealError::PhaseOrder);
    }
    if let Some(e) = check_placement(orch, layout, block_offset, num_sectors) {
        return Err(e);
    }
    record_slot(orch, layout, block_offset, num_sectors, stage, slice_to_vec(output_dir));
    Ok(())
}

/// Says whether no native call is under way on the slot.
fn slot_at_rest(slot: &Slot) -> (b: bool)
    ensures
        b == slot@.at_rest(),
{
    if slot.stage == Stage::ReplicaDerivation || slot.stage == Stage::TreeCommitment {
        return false;
    }
    let mut k: usize = 0;
    while k < slot.sectors.len()
        invariant
            k <= slot.sectors.len(),
            forall|j: int| 0 <= j < k ==> slot.sectors@[j] != SectorProof::Proving,
        decreases slot.sectors.len() - k,
    {
        if slot.sectors[k] == SectorProof::Proving {
            return false;
        }
        k = k + 1;
    }
    true
}

/// Gives the slot at `block_offset` up: its record is dropped and the
/// region is idle again. A slot on which a native call is under way is
/// kept. Giving up an idle slot changes nothing.
pub fn release(orch: &mut Orchestrator, block_offset: usize) -> (r: Result<(), SealError>)
    requires
        old(orch).wf(),
    ensures
        final(orch).wf(),
        if old(orch)@.contains_key(block_offset) && !old(orch)@[block_offset].at_rest() {
            r == Err::<(), SealError>(SealError::PhaseOrder) && final(orch)@ == old(orch)@
        } else {
            r is Ok && final(orch)@ == old(orch)@.remove(block_offset)
        },
{
    let i = match orch.find(block_offset) {
        Some(i) => i,
        None => {
            assert(orch@.remove(block_offset) =~= orch@);
            return Ok(());
        },
    };
    if !slot_at_rest(&orch.slots[i]) {
        return Err(SealError::PhaseOrder);
    }
    let ghost before = *orch;
    orch.slots.remove(i);
    proof {
        Orchestrator::lemma_view_remove(before, *orch, i as int);
    }
    Ok(())
}

} // verus!
