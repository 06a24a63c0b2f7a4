use supraseal::seal::{
    adopt, c1, c1_done, check_phase_status, flatten_replica_ids, init, pc1, pc1_done, pc2,
    pc2_cleanup, pc2_done, pending_sectors, release, Layout, Orchestrator, Phase, ReplicaId,
    SealError, SectorProof, Stage, REPLICA_ID_BYTES,
};

const PARENTS: &[u8] = b"/var/tmp/filecoin-parents/v28-sdr-parent.cache";
const OUTPUT: &[u8] = b"/var/tmp/supra_seal/0";
const REPLICA: &[u8] = b"/var/tmp/supra_seal/0/replicas";

fn id_of(tag: u8) -> ReplicaId {
    let mut id: ReplicaId = [0u8; 32];
    let mut i: usize = 0;
    while i < 32 {
        id[i] = tag.wrapping_add(i as u8);
        i += 1;
    }
    id
}

fn storage() -> Layout {
    Layout { max_block_offset: 1000, slot_size: 300 }
}

fn committed(num_sectors: usize) -> Orchestrator {
    let mut orch = Orchestrator::new();
    let ids: Vec<ReplicaId> = (0..num_sectors).map(|i| id_of(i as u8)).collect();
    pc1(&mut orch, &storage(), 0, num_sectors, ids, PARENTS).unwrap();
    pc1_done(&mut orch, 0, 0).unwrap();
    pc2(&mut orch, 0, num_sectors, OUTPUT).unwrap();
    pc2_done(&mut orch, 0, 0).unwrap();
    orch
}

#[test]
fn two_sectors_through_all_three_phases() {
    let id0 = id_of(0x10);
    let id1 = id_of(0x80);
    let mut orch = init(b"supra_seal.cfg").unwrap();
    let layout = storage();

    let derive = pc1(&mut orch, &layout, 0, 2, vec![id0, id1], PARENTS).unwrap();
    assert_eq!(derive.block_offset, 0);
    assert_eq!(derive.num_sectors, 2);
    assert_eq!(derive.replica_ids.len(), 64);
    assert_eq!(&derive.replica_ids[..32], &id0[..]);
    assert_eq!(&derive.replica_ids[32..], &id1[..]);
    assert_eq!(derive.parents_filename, PARENTS.to_vec());
    assert_eq!(orch.stage_of(0), Some(Stage::ReplicaDerivation));
    assert_eq!(pc1_done(&mut orch, 0, 0), Ok(()));
    assert_eq!(orch.stage_of(0), Some(Stage::Derived));

    let commit = pc2(&mut orch, 0, 2, OUTPUT).unwrap();
    assert_eq!(commit.block_offset, 0);
    assert_eq!(commit.num_sectors, 2);
    assert_eq!(commit.output_dir, OUTPUT.to_vec());
    assert_eq!(orch.stage_of(0), Some(Stage::TreeCommitment));
    assert_eq!(pc2_done(&mut orch, 0, 0), Ok(()));
    assert_eq!(orch.stage_of(0), Some(Stage::FinalProof));

    let seed0: [u8; 32] = [1u8; 32];
    let seed1: [u8; 32] = [2u8; 32];
    let ticket0: [u8; 32] = [3u8; 32];
    let ticket1: [u8; 32] = [4u8; 32];
    let first = c1(&mut orch, 0, 2, 0, &id0, &seed0, &ticket0, OUTPUT, PARENTS, REPLICA).unwrap();
    let second = c1(&mut orch, 0, 2, 1, &id1, &seed1, &ticket1, OUTPUT, PARENTS, REPLICA).unwrap();
    assert_eq!(first.sector_slot, 0);
    assert_eq!(first.replica_id, id0);
    assert_eq!(first.seed, seed0);
    assert_eq!(first.ticket, ticket0);
    assert_eq!(first.cache_path, OUTPUT.to_vec());
    assert_eq!(first.parents_filename, PARENTS.to_vec());
    assert_eq!(first.replica_path, REPLICA.to_vec());
    assert_eq!(second.sector_slot, 1);
    assert_eq!(second.replica_id, id1);
    assert_eq!(second.seed, seed1);
    assert_eq!(second.ticket, ticket1);
    assert_ne!(first, second);
    assert_eq!(orch.sector_state(0, 0), Some(SectorProof::Proving));
    assert_eq!(orch.sector_state(0, 1), Some(SectorProof::Proving));
    assert_eq!(c1_done(&mut orch, 0, 1, 0), Ok(()));
    assert_eq!(c1_done(&mut orch, 0, 0, 0), Ok(()));
    assert_eq!(orch.sector_state(0, 0), Some(SectorProof::Proved));
    assert_eq!(orch.sector_state(0, 1), Some(SectorProof::Proved));

    assert_eq!(release(&mut orch, 0), Ok(()));
    assert_eq!(orch.stage_of(0), None);
}

#[test]
fn tree_commitment_needs_replica_derivation() {
    let mut orch = Orchestrator::new();
    assert_eq!(pc2(&mut orch, 0, 2, OUTPUT), Err(SealError::PhaseOrder));
    assert_eq!(orch.stage_of(0), None);
    pc1(&mut orch, &storage(), 0, 2, vec![id_of(1), id_of(2)], PARENTS).unwrap();
    assert_eq!(pc2(&mut orch, 0, 2, OUTPUT), Err(SealError::PhaseOrder));
    assert_eq!(orch.stage_of(0), Some(Stage::ReplicaDerivation));
    assert_eq!(pc1_done(&mut orch, 0, 0), Ok(()));
    assert_eq!(pc2(&mut orch, 300, 2, OUTPUT), Err(SealError::PhaseOrder));
    assert_eq!(pc2(&mut orch, 0, 3, OUTPUT), Err(SealError::PhaseOrder));
    assert!(pc2(&mut orch, 0, 2, OUTPUT).is_ok());
    assert_eq!(pc2(&mut orch, 0, 2, OUTPUT), Err(SealError::PhaseOrder));
}

#[test]
fn final_proof_needs_tree_commitment() {
    let id = id_of(9);
    let seed: [u8; 32] = [5u8; 32];
    let ticket: [u8; 32] = [6u8; 32];
    let mut orch = Orchestrator::new();
    assert_eq!(
        c1(&mut orch, 0, 1, 0, &id, &seed, &ticket, OUTPUT, PARENTS, REPLICA),
        Err(SealError::PhaseOrder)
    );
    pc1(&mut orch, &storage(), 0, 1, vec![id], PARENTS).unwrap();
    pc1_done(&mut orch, 0, 0).unwrap();
    assert_eq!(
        c1(&mut orch, 0, 1, 0, &id, &seed, &ticket, OUTPUT, PARENTS, REPLICA),
        Err(SealError::PhaseOrder)
    );
    pc2(&mut orch, 0, 1, OUTPUT).unwrap();
    assert_eq!(
        c1(&mut orch, 0, 1, 0, &id, &seed, &ticket, OUTPUT, PARENTS, REPLICA),
        Err(SealError::PhaseOrder)
    );
    pc2_done(&mut orch, 0, 0).unwrap();
    assert_eq!(
        c1(&mut orch, 0, 2, 0, &id, &seed, &ticket, OUTPUT, PARENTS, REPLICA),
        Err(SealError::PhaseOrder)
    );
    assert!(c1(&mut orch, 0, 1, 0, &id, &seed, &ticket, OUTPUT, PARENTS, REPLICA).is_ok());
}

#[test]
fn answers_are_only_taken_for_calls_under_way() {
    let mut orch = Orchestrator::new();
    assert_eq!(pc1_done(&mut orch, 0, 0), Err(SealError::PhaseOrder));
    assert_eq!(pc2_done(&mut orch, 0, 0), Err(SealError::PhaseOrder));
    assert_eq!(c1_done(&mut orch, 0, 0, 0), Err(SealError::PhaseOrder));
    pc1(&mut orch, &storage(), 0, 1, vec![id_of(1)], PARENTS).unwrap();
    assert_eq!(pc2_done(&mut orch, 0, 0), Err(SealError::PhaseOrder));
    pc1_done(&mut orch, 0, 0).unwrap();
    assert_eq!(pc1_done(&mut orch, 0, 0), Err(SealError::PhaseOrder));
    assert_eq!(pc2_done(&mut orch, 0, 0), Err(SealError::PhaseOrder));
    pc2(&mut orch, 0, 1, OUTPUT).unwrap();
    pc2_done(&mut orch, 0, 0).unwrap();
    assert_eq!(c1_done(&mut orch, 0, 0, 0), Err(SealError::PhaseOrder));
    assert_eq!(c1_done(&mut orch, 0, 7, 0), Err(SealError::PhaseOrder));
    assert_eq!(orch.stage_of(0), Some(Stage::FinalProof));
    assert_eq!(orch.sector_state(0, 0), Some(SectorProof::Pending));
}

#[test]
fn failed_replica_derivation_leaves_the_slot_idle() {
    let mut orch = Orchestrator::new();
    pc1(&mut orch, &storage(), 300, 1, vec![id_of(1)], PARENTS).unwrap();
    assert_eq!(
        pc1_done(&mut orch, 300, 17),
        Err(SealError::PhaseFailed { phase: Phase::ReplicaDerivation, status: 17 })
    );
    assert_eq!(orch.stage_of(300), None);
    assert_eq!(pc2(&mut orch, 300, 1, OUTPUT), Err(SealError::PhaseOrder));
    assert!(pc1(&mut orch, &storage(), 300, 1, vec![id_of(1)], PARENTS).is_ok());
}

#[test]
fn failed_tree_commitment_can_be_run_again() {
    let mut orch = Orchestrator::new();
    pc1(&mut orch, &storage(), 0, 1, vec![id_of(1)], PARENTS).unwrap();
    pc1_done(&mut orch, 0, 0).unwrap();
    pc2(&mut orch, 0, 1, OUTPUT).unwrap();
    assert_eq!(
        pc2_done(&mut orch, 0, 1),
        Err(SealError::PhaseFailed { phase: Phase::TreeCommitment, status: 1 })
    );
    assert_eq!(orch.stage_of(0), Some(Stage::Derived));
    assert!(pc2(&mut orch, 0, 1, OUTPUT).is_ok());
    assert_eq!(pc2_done(&mut orch, 0, 0), Ok(()));
    assert_eq!(orch.stage_of(0), Some(Stage::FinalProof));
}

#[test]
fn failed_final_proof_can_be_run_again() {
    let id = id_of(3);
    let seed: [u8; 32] = [7u8; 32];
    let ticket: [u8; 32] = [8u8; 32];
    let mut orch = committed(2);
    c1(&mut orch, 0, 2, 1, &id, &seed, &ticket, OUTPUT, PARENTS, REPLICA).unwrap();
    assert_eq!(
        c1_done(&mut orch, 0, 1, u32::MAX),
        Err(SealError::PhaseFailed { phase: Phase::FinalProof, status: u32::MAX })
    );
    assert_eq!(orch.sector_state(0, 1), Some(SectorProof::Pending));
    assert_eq!(orch.sector_state(0, 0), Some(SectorProof::Pending));
    assert!(c1(&mut orch, 0, 2, 1, &id, &seed, &ticket, OUTPUT, PARENTS, REPLICA).is_ok());
}

#[test]
fn sector_is_proved_once() {
    let id = id_of(3);
    let seed: [u8; 32] = [7u8; 32];
    let ticket: [u8; 32] = [8u8; 32];
    let mut orch = committed(3);
    assert_eq!(
        c1(&mut orch, 0, 3, 3, &id, &seed, &ticket, OUTPUT, PARENTS, REPLICA),
        Err(SealError::SectorOutOfRange)
    );
    c1(&mut orch, 0, 3, 2, &id, &seed, &ticket, OUTPUT, PARENTS, REPLICA).unwrap();
    assert_eq!(
        c1(&mut orch, 0, 3, 2, &id, &seed, &ticket, OUTPUT, PARENTS, REPLICA),
        Err(SealError::SectorNotPending)
    );
    c1_done(&mut orch, 0, 2, 0).unwrap();
    assert_eq!(
        c1(&mut orch, 0, 3, 2, &id, &seed, &ticket, OUTPUT, PARENTS, REPLICA),
        Err(SealError::SectorNotPending)
    );
    assert_eq!(orch.sector_state(0, 2), Some(SectorProof::Proved));
    assert_eq!(orch.sector_state(0, 3), None);
    assert_eq!(orch.sector_state(300, 0), None);
}

#[test]
fn replica_derivation_checks_its_inputs() {
    let mut orch = Orchestrator::new();
    let layout = storage();
    assert_eq!(
        pc1(&mut orch, &layout, 0, 1, vec![id_of(1)], b"bad\0path"),
        Err(SealError::MalformedPath)
    );
    assert_eq!(pc1(&mut orch, &layout, 0, 0, Vec::new(), PARENTS), Err(SealError::NoSectors));
    assert_eq!(pc1(&mut orch, &layout, 0, 0, vec![id_of(1)], PARENTS), Err(SealError::NoSectors));
    assert_eq!(
        pc1(&mut orch, &layout, 0, 2, vec![id_of(1)], PARENTS),
        Err(SealError::ReplicaCountMismatch)
    );
    assert_eq!(
        pc1(&mut orch, &layout, 0, 1, vec![id_of(1), id_of(2)], PARENTS),
        Err(SealError::ReplicaCountMismatch)
    );
    assert_eq!(
        pc1(&mut orch, &layout, 701, 1, vec![id_of(1)], PARENTS),
        Err(SealError::OutOfRange)
    );
    assert_eq!(
        pc1(&mut orch, &layout, usize::MAX, 1, vec![id_of(1)], PARENTS),
        Err(SealError::OutOfRange)
    );
    let empty = Layout { max_block_offset: 1000, slot_size: 0 };
    assert_eq!(pc1(&mut orch, &empty, 0, 1, vec![id_of(1)], PARENTS), Err(SealError::OutOfRange));
    assert_eq!(orch, Orchestrator::new());
    assert!(pc1(&mut orch, &layout, 700, 1, vec![id_of(1)], PARENTS).is_ok());
}

#[test]
fn slots_may_not_overlap() {
    let mut orch = Orchestrator::new();
    let layout = storage();
    pc1(&mut orch, &layout, 300, 1, vec![id_of(1)], PARENTS).unwrap();
    assert_eq!(
        pc1(&mut orch, &layout, 300, 1, vec![id_of(2)], PARENTS),
        Err(SealError::RegionInUse)
    );
    assert_eq!(
        pc1(&mut orch, &layout, 1, 1, vec![id_of(2)], PARENTS),
        Err(SealError::RegionInUse)
    );
    assert_eq!(
        pc1(&mut orch, &layout, 599, 1, vec![id_of(2)], PARENTS),
        Err(SealError::RegionInUse)
    );
    let small = Layout { max_block_offset: 1000, slot_size: 10 };
    assert_eq!(
        pc1(&mut orch, &small, 400, 1, vec![id_of(2)], PARENTS),
        Err(SealError::RegionInUse)
    );
    assert!(pc1(&mut orch, &layout, 0, 1, vec![id_of(2)], PARENTS).is_ok());
    assert!(pc1(&mut orch, &layout, 600, 1, vec![id_of(3)], PARENTS).is_ok());
    assert_eq!(orch.stage_of(0), Some(Stage::ReplicaDerivation));
    assert_eq!(orch.stage_of(300), Some(Stage::ReplicaDerivation));
    assert_eq!(orch.stage_of(600), Some(Stage::ReplicaDerivation));
    assert_eq!(orch.stage_of(1), None);
}

#[test]
fn slots_advance_independently() {
    let mut orch = Orchestrator::new();
    let layout = storage();
    pc1(&mut orch, &layout, 0, 1, vec![id_of(1)], PARENTS).unwrap();
    pc1(&mut orch, &layout, 300, 2, vec![id_of(2), id_of(3)], PARENTS).unwrap();
    pc1_done(&mut orch, 300, 0).unwrap();
    assert_eq!(orch.stage_of(0), Some(Stage::ReplicaDerivation));
    assert_eq!(orch.stage_of(300), Some(Stage::Derived));
    pc2(&mut orch, 300, 2, OUTPUT).unwrap();
    pc1_done(&mut orch, 0, 0).unwrap();
    assert_eq!(orch.stage_of(0), Some(Stage::Derived));
    assert_eq!(orch.stage_of(300), Some(Stage::TreeCommitment));
}

#[test]
fn malformed_paths_are_refused_before_anything_else() {
    let id = id_of(3);
    let seed: [u8; 32] = [7u8; 32];
    let ticket: [u8; 32] = [8u8; 32];
    let mut orch = Orchestrator::new();
    assert_eq!(pc2(&mut orch, 0, 1, b"out\0"), Err(SealError::MalformedPath));
    assert_eq!(pc2_cleanup(&orch, 1, b"\0out"), Err(SealError::MalformedPath));
    assert_eq!(
        c1(&mut orch, 0, 1, 0, &id, &seed, &ticket, b"a\0", PARENTS, REPLICA),
        Err(SealError::MalformedPath)
    );
    assert_eq!(
        c1(&mut orch, 0, 1, 0, &id, &seed, &ticket, OUTPUT, b"b\0c", REPLICA),
        Err(SealError::MalformedPath)
    );
    assert_eq!(
        c1(&mut orch, 0, 1, 0, &id, &seed, &ticket, OUTPUT, PARENTS, b"\0"),
        Err(SealError::MalformedPath)
    );
    assert_eq!(
        adopt(&mut orch, &storage(), 0, 1, Stage::Derived, b"x\0"),
        Err(SealError::MalformedPath)
    );
    assert_eq!(init(b"cfg\0").err(), Some(SealError::MalformedPath));
    assert!(init(b"").is_ok());
}

#[test]
fn cleanup_follows_tree_commitment() {
    let mut orch = Orchestrator::new();
    assert_eq!(pc2_cleanup(&orch, 2, OUTPUT), Err(SealError::PhaseOrder));
    pc1(&mut orch, &storage(), 0, 2, vec![id_of(1), id_of(2)], PARENTS).unwrap();
    pc1_done(&mut orch, 0, 0).unwrap();
    pc2(&mut orch, 0, 2, OUTPUT).unwrap();
    assert_eq!(pc2_cleanup(&orch, 2, OUTPUT), Err(SealError::PhaseOrder));
    pc2_done(&mut orch, 0, 0).unwrap();
    let call = pc2_cleanup(&orch, 2, OUTPUT).unwrap();
    assert_eq!(call.num_sectors, 2);
    assert_eq!(call.output_dir, OUTPUT.to_vec());
    assert_eq!(pc2_cleanup(&orch, 3, OUTPUT), Err(SealError::PhaseOrder));
    assert_eq!(pc2_cleanup(&orch, 2, b"/elsewhere"), Err(SealError::PhaseOrder));
    assert_eq!(orch.stage_of(0), Some(Stage::FinalProof));
}

#[test]
fn slot_completed_earlier_can_be_taken_over() {
    let id = id_of(3);
    let seed: [u8; 32] = [7u8; 32];
    let ticket: [u8; 32] = [8u8; 32];
    let mut orch = Orchestrator::new();
    let layout = storage();
    assert_eq!(adopt(&mut orch, &layout, 0, 4, Stage::Derived, b""), Ok(()));
    assert_eq!(orch.stage_of(0), Some(Stage::Derived));
    assert!(pc2(&mut orch, 0, 4, OUTPUT).is_ok());
    assert_eq!(adopt(&mut orch, &layout, 300, 2, Stage::FinalProof, OUTPUT), Ok(()));
    assert_eq!(orch.sector_state(300, 1), Some(SectorProof::Pending));
    assert!(pc2_cleanup(&orch, 2, OUTPUT).is_ok());
    assert!(c1(&mut orch, 300, 2, 1, &id, &seed, &ticket, OUTPUT, PARENTS, REPLICA).is_ok());
}

#[test]
fn only_a_slot_at_rest_can_be_taken_over() {
    let mut orch = Orchestrator::new();
    let layout = storage();
    assert_eq!(
        adopt(&mut orch, &layout, 0, 1, Stage::ReplicaDerivation, b""),
        Err(SealError::PhaseOrder)
    );
    assert_eq!(
        adopt(&mut orch, &layout, 0, 1, Stage::TreeCommitment, OUTPUT),
        Err(SealError::PhaseOrder)
    );
    assert_eq!(adopt(&mut orch, &layout, 0, 0, Stage::Derived, b""), Err(SealError::NoSectors));
    assert_eq!(adopt(&mut orch, &layout, 800, 1, Stage::Derived, b""), Err(SealError::OutOfRange));
    assert_eq!(adopt(&mut orch, &layout, 0, 1, Stage::Derived, b""), Ok(()));
    assert_eq!(
        adopt(&mut orch, &layout, 200, 1, Stage::Derived, b""),
        Err(SealError::RegionInUse)
    );
}

#[test]
fn release_keeps_a_slot_with_a_call_under_way() {
    let id = id_of(3);
    let seed: [u8; 32] = [7u8; 32];
    let ticket: [u8; 32] = [8u8; 32];
    let mut orch = Orchestrator::new();
    assert_eq!(release(&mut orch, 0), Ok(()));
    pc1(&mut orch, &storage(), 0, 2, vec![id_of(1), id_of(2)], PARENTS).unwrap();
    assert_eq!(release(&mut orch, 0), Err(SealError::PhaseOrder));
    pc1_done(&mut orch, 0, 0).unwrap();
    pc2(&mut orch, 0, 2, OUTPUT).unwrap();
    assert_eq!(release(&mut orch, 0), Err(SealError::PhaseOrder));
    pc2_done(&mut orch, 0, 0).unwrap();
    c1(&mut orch, 0, 2, 1, &id, &seed, &ticket, OUTPUT, PARENTS, REPLICA).unwrap();
    assert_eq!(release(&mut orch, 0), Err(SealError::PhaseOrder));
    assert_eq!(orch.stage_of(0), Some(Stage::FinalProof));
    c1_done(&mut orch, 0, 1, 0).unwrap();
    assert_eq!(release(&mut orch, 0), Ok(()));
    assert_eq!(orch.stage_of(0), None);
    assert!(pc1(&mut orch, &storage(), 0, 1, vec![id_of(4)], PARENTS).is_ok());
}

#[test]
fn release_at_rest_frees_the_region() {
    let mut orch = Orchestrator::new();
    let layout = storage();
    pc1(&mut orch, &layout, 0, 1, vec![id_of(1)], PARENTS).unwrap();
    pc1(&mut orch, &layout, 300, 1, vec![id_of(2)], PARENTS).unwrap();
    pc1_done(&mut orch, 0, 0).unwrap();
    assert_eq!(release(&mut orch, 0), Ok(()));
    assert_eq!(orch.stage_of(0), None);
    assert_eq!(orch.stage_of(300), Some(Stage::ReplicaDerivation));
    assert!(pc1(&mut orch, &layout, 0, 1, vec![id_of(3)], PARENTS).is_ok());
}

#[test]
fn identifiers_are_laid_out_in_order() {
    assert_eq!(REPLICA_ID_BYTES, 32);
    let none: Vec<ReplicaId> = Vec::new();
    assert!(flatten_replica_ids(&none).is_empty());
    let ids: Vec<ReplicaId> = vec![id_of(0), id_of(100), id_of(200)];
    let bytes = flatten_replica_ids(&ids);
    assert_eq!(bytes.len(), 96);
    let mut k: usize = 0;
    while k < 96 {
        assert_eq!(bytes[k], ids[k / 32][k % 32]);
        k += 1;
    }
    assert_eq!(bytes[0], 0);
    assert_eq!(bytes[31], 31);
    assert_eq!(bytes[32], 100);
    assert_eq!(bytes[64], 200);
    assert_eq!(bytes[95], 231);
}

#[test]
fn status_zero_is_the_only_success() {
    assert_eq!(check_phase_status(Phase::ReplicaDerivation, 0), Ok(()));
    assert_eq!(check_phase_status(Phase::FinalProof, 0), Ok(()));
    assert_eq!(
        check_phase_status(Phase::TreeCommitment, 1),
        Err(SealError::PhaseFailed { phase: Phase::TreeCommitment, status: 1 })
    );
    assert_eq!(
        check_phase_status(Phase::FinalProof, 4_000_000_000),
        Err(SealError::PhaseFailed { phase: Phase::FinalProof, status: 4_000_000_000 })
    );
}

#[test]
fn layout_places_slots_side_by_side() {
    let layout = storage();
    assert_eq!(layout.slot_count(), 3);
    assert_eq!(layout.slot_offset(0), Some(0));
    assert_eq!(layout.slot_offset(1), Some(300));
    assert_eq!(layout.slot_offset(2), Some(600));
    assert_eq!(layout.slot_offset(3), None);
    assert!(layout.admits(0));
    assert!(layout.admits(700));
    assert!(!layout.admits(701));
    assert!(!layout.admits(usize::MAX));
}

#[test]
fn layout_edge_cases() {
    let exact = Layout { max_block_offset: 900, slot_size: 300 };
    assert_eq!(exact.slot_count(), 3);
    assert_eq!(exact.slot_offset(2), Some(600));
    assert!(exact.admits(600));
    assert!(!exact.admits(601));
    let empty = Layout { max_block_offset: 900, slot_size: 0 };
    assert_eq!(empty.slot_count(), 0);
    assert_eq!(empty.slot_offset(0), None);
    assert!(!empty.admits(0));
    let too_big = Layout { max_block_offset: 10, slot_size: 11 };
    assert_eq!(too_big.slot_count(), 0);
    assert_eq!(too_big.slot_offset(0), None);
    assert!(!too_big.admits(0));
    let whole = Layout { max_block_offset: usize::MAX, slot_size: usize::MAX };
    assert_eq!(whole.slot_count(), 1);
    assert_eq!(whole.slot_offset(0), Some(0));
    assert!(whole.admits(0));
    assert!(!whole.admits(1));
}

#[test]
fn fresh_sectors_are_pending() {
    assert!(pending_sectors(0).is_empty());
    assert_eq!(
        pending_sectors(3),
        vec![SectorProof::Pending, SectorProof::Pending, SectorProof::Pending]
    );
}

#[test]
fn records_made_by_the_phases_are_sound() {
    let mut orch = Orchestrator::new();
    assert!(orch.is_sound());
    let layout = storage();
    pc1(&mut orch, &layout, 0, 1, vec![id_of(1)], PARENTS).unwrap();
    pc1(&mut orch, &layout, 600, 2, vec![id_of(2), id_of(3)], PARENTS).unwrap();
    assert!(orch.is_sound());
    assert_eq!(orch.find(600), Some(1));
    assert_eq!(orch.find(0), Some(0));
    assert_eq!(orch.find(300), None);
    assert!(orch.region_in_use(299, 2));
    assert!(!orch.region_in_use(300, 300));
    assert!(orch.region_in_use(300, 301));
}

#[test]
fn damaged_records_are_told_apart() {
    let mut orch = Orchestrator::new();
    let layout = storage();
    pc1(&mut orch, &layout, 0, 1, vec![id_of(1)], PARENTS).unwrap();
    pc1(&mut orch, &layout, 300, 1, vec![id_of(2)], PARENTS).unwrap();
    orch.slots[1].block_offset = 299;
    assert!(!orch.is_sound());
    orch.slots[1].block_offset = 300;
    assert!(orch.is_sound());
    orch.slots[0].sectors.push(SectorProof::Pending);
    assert!(!orch.is_sound());
    orch.slots[0].sectors.pop();
    orch.slots[0].slot_size = 0;
    assert!(!orch.is_sound());
    orch.slots[0].slot_size = 300;
    orch.slots[1].num_sectors = 0;
    assert!(!orch.is_sound());
}
