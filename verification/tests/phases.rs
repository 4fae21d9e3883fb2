use supraseal::{
    c1, decode_path, pc1, pc2, pc2_cleanup, unflatten_replica_ids, C1Call, CleanupCall,
    ConfigError, Limits, PathFault, PathRole, Pc1Call, Pc2Call, Phase, PhaseResult, SealError,
    SUCCESS,
};

const LIMITS: Limits = Limits { max_block_offset: 64, slot_size: 4 };

fn identifier(first: u8) -> [u8; 32] {
    let mut id: [u8; 32] = [0u8; 32];
    let mut i: usize = 0;
    while i < 32 {
        id[i] = first.wrapping_add(i as u8);
        i += 1;
    }
    id
}

fn config(r: Result<(), SealError>) -> Option<ConfigError> {
    match r {
        Err(SealError::InvalidConfiguration(e)) => Some(e),
        _ => None,
    }
}

fn fault(r: Result<(), SealError>) -> Option<PathFault> {
    match r {
        Err(SealError::InvalidInput(f)) => Some(f),
        _ => None,
    }
}

#[test]
fn success_is_status_zero() {
    assert_eq!(SUCCESS, 0);
    assert!(PhaseResult::new(Phase::Pc1, 0).is_success());
    assert!(!PhaseResult::new(Phase::Pc1, 1).is_success());
    assert!(!PhaseResult::new(Phase::C1, u32::MAX).is_success());
}

#[test]
fn phase_result_keeps_phase_and_code() {
    let r: PhaseResult = PhaseResult::new(Phase::Cleanup, 17);
    assert_eq!(r.phase, Phase::Cleanup);
    assert_eq!(r.code, 17);
    assert_eq!(r, PhaseResult { phase: Phase::Cleanup, code: 17 });
}

#[test]
fn pc1_lays_out_identifiers_and_parents_file() {
    let ids: Vec<[u8; 32]> = vec![identifier(10), identifier(100)];
    let call: Pc1Call = pc1(3, 2, ids.clone(), b"/graph/parents", 2048, &LIMITS).unwrap();
    assert_eq!(call.block_offset, 3);
    assert_eq!(call.num_sectors, 2);
    assert_eq!(call.sector_size, 2048);
    assert_eq!(call.replica_ids.len(), 64);
    assert_eq!(&call.replica_ids[0..32], &ids[0][..]);
    assert_eq!(&call.replica_ids[32..64], &ids[1][..]);
    assert_eq!(call.parents_filename, b"/graph/parents\0".to_vec());
    assert_eq!(unflatten_replica_ids(&call.replica_ids), Some(ids));
}

#[test]
fn pc1_hands_over_32_bytes_for_each_sector() {
    let mut n: usize = 1;
    while n <= 4 {
        let mut ids: Vec<[u8; 32]> = Vec::new();
        let mut i: usize = 0;
        while i < n {
            ids.push(identifier(i as u8));
            i += 1;
        }
        let call: Pc1Call = pc1(0, n, ids, b"p", 2048, &LIMITS).unwrap();
        assert_eq!(call.replica_ids.len(), 32 * n);
        n += 1;
    }
}

#[test]
fn pc1_refuses_block_offset_one_past_the_maximum() {
    let at_max = pc1(LIMITS.max_block_offset, 1, vec![identifier(0)], b"p", 2048, &LIMITS);
    assert!(at_max.is_ok());
    let past = pc1(LIMITS.max_block_offset + 1, 1, vec![identifier(0)], b"p", 2048, &LIMITS);
    assert_eq!(config(past.map(|_| ())), Some(ConfigError::BlockOffsetOutOfRange));
}

#[test]
fn pc1_refuses_the_wrong_number_of_identifiers() {
    let few = pc1(0, 2, vec![identifier(0)], b"p", 2048, &LIMITS);
    assert_eq!(config(few.map(|_| ())), Some(ConfigError::ReplicaIdCountMismatch));
    let many = pc1(0, 1, vec![identifier(0), identifier(1)], b"p", 2048, &LIMITS);
    assert_eq!(config(many.map(|_| ())), Some(ConfigError::ReplicaIdCountMismatch));
}

#[test]
fn pc1_refuses_a_bad_shape() {
    let none = pc1(0, 0, Vec::new(), b"p", 2048, &LIMITS);
    assert_eq!(config(none.map(|_| ())), Some(ConfigError::NoSectors));
    let crowd = pc1(0, 5, vec![identifier(0); 5], b"p", 2048, &LIMITS);
    assert_eq!(config(crowd.map(|_| ())), Some(ConfigError::TooManySectors));
    let odd = pc1(0, 1, vec![identifier(0)], b"p", 2000, &LIMITS);
    assert_eq!(config(odd.map(|_| ())), Some(ConfigError::SectorSizeNotPowerOfTwo));
}

#[test]
fn pc1_refuses_a_parents_file_with_a_nul() {
    let r = pc1(0, 1, vec![identifier(0)], b"/graph\0/parents", 2048, &LIMITS);
    assert_eq!(
        fault(r.map(|_| ())),
        Some(PathFault { role: PathRole::ParentsFile, index: 0, position: 6 })
    );
}

#[test]
fn pc1_reports_the_job_before_the_path() {
    let r = pc1(65, 1, vec![identifier(0)], b"\0", 2048, &LIMITS);
    assert_eq!(config(r.map(|_| ())), Some(ConfigError::BlockOffsetOutOfRange));
}

#[test]
fn pc2_without_data_files_leaves_them_out() {
    let call: Pc2Call = pc2(1, 2, b"/out", None, 2048, &LIMITS).unwrap();
    assert_eq!(call.block_offset, 1);
    assert_eq!(call.num_sectors, 2);
    assert_eq!(call.sector_size, 2048);
    assert_eq!(call.output_dir, b"/out\0".to_vec());
    assert_eq!(call.data_filenames, None);
}

#[test]
fn pc2_terminates_each_data_file_in_batch_order() {
    let files: Vec<Vec<u8>> = vec![b"/data/s0".to_vec(), b"/data/s1".to_vec(), b"/d/s2".to_vec()];
    let call: Pc2Call = pc2(0, 3, b"/out", Some(&files), 2048, &LIMITS).unwrap();
    assert_eq!(
        call.data_filenames,
        Some(vec![b"/data/s0\0".to_vec(), b"/data/s1\0".to_vec(), b"/d/s2\0".to_vec()])
    );
    assert_eq!(call.output_dir, b"/out\0".to_vec());
}

#[test]
fn pc2_tells_an_empty_list_from_no_list() {
    let empty: Vec<Vec<u8>> = Vec::new();
    let with_empty = pc2(0, 1, b"/out", Some(&empty), 2048, &LIMITS);
    assert_eq!(config(with_empty.map(|_| ())), Some(ConfigError::DataFileCountMismatch));
    let without = pc2(0, 1, b"/out", None, 2048, &LIMITS);
    assert!(without.is_ok());
}

#[test]
fn pc2_refuses_the_wrong_number_of_data_files() {
    let files: Vec<Vec<u8>> = vec![b"/a".to_vec(), b"/b".to_vec()];
    let r = pc2(0, 3, b"/out", Some(&files), 2048, &LIMITS);
    assert_eq!(config(r.map(|_| ())), Some(ConfigError::DataFileCountMismatch));
    let r = pc2(0, 1, b"/out", Some(&files), 2048, &LIMITS);
    assert_eq!(config(r.map(|_| ())), Some(ConfigError::DataFileCountMismatch));
}

#[test]
fn pc2_refuses_a_data_file_named_twice() {
    let files: Vec<Vec<u8>> = vec![b"/a".to_vec(), b"/b".to_vec(), b"/a".to_vec()];
    let r = pc2(0, 3, b"/out", Some(&files), 2048, &LIMITS);
    assert_eq!(config(r.map(|_| ())), Some(ConfigError::DuplicateDataFile));
}

#[test]
fn pc2_refuses_a_bad_batch() {
    let r = pc2(65, 1, b"/out", None, 2048, &LIMITS);
    assert_eq!(config(r.map(|_| ())), Some(ConfigError::BlockOffsetOutOfRange));
    let r = pc2(0, 0, b"/out", None, 2048, &LIMITS);
    assert_eq!(config(r.map(|_| ())), Some(ConfigError::NoSectors));
}

#[test]
fn pc2_refuses_an_output_dir_with_a_nul() {
    let files: Vec<Vec<u8>> = vec![b"/a\0".to_vec()];
    let r = pc2(0, 1, b"\0/out", Some(&files), 2048, &LIMITS);
    assert_eq!(
        fault(r.map(|_| ())),
        Some(PathFault { role: PathRole::OutputDir, index: 0, position: 0 })
    );
}

#[test]
fn pc2_reports_the_first_data_file_with_a_nul() {
    let files: Vec<Vec<u8>> = vec![b"/a".to_vec(), b"/b\0b".to_vec(), b"\0".to_vec()];
    let r = pc2(0, 3, b"/out", Some(&files), 2048, &LIMITS);
    assert_eq!(
        fault(r.map(|_| ())),
        Some(PathFault { role: PathRole::DataFile, index: 1, position: 2 })
    );
}

#[test]
fn cleanup_lays_out_the_output_dir() {
    let call: CleanupCall = pc2_cleanup(2, b"/out", 2048, &LIMITS).unwrap();
    assert_eq!(call.num_sectors, 2);
    assert_eq!(call.sector_size, 2048);
    assert_eq!(call.output_dir, b"/out\0".to_vec());
    assert_eq!(decode_path(&call.output_dir), Some(b"/out".to_vec()));
}

#[test]
fn cleanup_refuses_a_bad_shape_and_a_bad_path() {
    let r = pc2_cleanup(0, b"/out", 2048, &LIMITS);
    assert_eq!(config(r.map(|_| ())), Some(ConfigError::NoSectors));
    let r = pc2_cleanup(5, b"/out", 2048, &LIMITS);
    assert_eq!(config(r.map(|_| ())), Some(ConfigError::TooManySectors));
    let r = pc2_cleanup(1, b"/out", 3, &LIMITS);
    assert_eq!(config(r.map(|_| ())), Some(ConfigError::SectorSizeNotPowerOfTwo));
    let r = pc2_cleanup(1, b"/out\0", 2048, &LIMITS);
    assert_eq!(
        fault(r.map(|_| ())),
        Some(PathFault { role: PathRole::OutputDir, index: 0, position: 4 })
    );
}

#[test]
fn c1_lays_out_every_buffer() {
    let ids: Vec<[u8; 32]> = vec![identifier(1), identifier(2)];
    let seed: [u8; 32] = identifier(50);
    let ticket: [u8; 32] = identifier(90);
    let call: C1Call =
        c1(4, 2, 1, ids.clone(), seed, ticket, b"/cache", b"/parents", b"/replica", 2048, &LIMITS)
            .unwrap();
    assert_eq!(call.block_offset, 4);
    assert_eq!(call.num_sectors, 2);
    assert_eq!(call.sector_slot, 1);
    assert_eq!(call.sector_size, 2048);
    assert_eq!(call.seed, seed);
    assert_eq!(call.ticket, ticket);
    assert_eq!(call.replica_ids.len(), 64);
    assert_eq!(unflatten_replica_ids(&call.replica_ids), Some(ids));
    assert_eq!(call.cache_path, b"/cache\0".to_vec());
    assert_eq!(call.parents_filename, b"/parents\0".to_vec());
    assert_eq!(call.replica_path, b"/replica\0".to_vec());
}

#[test]
fn c1_refuses_a_slot_at_or_past_the_capacity() {
    let zero: [u8; 32] = [0u8; 32];
    let last = c1(0, 1, 3, vec![zero], zero, zero, b"c", b"p", b"r", 2048, &LIMITS);
    assert!(last.is_ok());
    let past = c1(0, 1, 4, vec![zero], zero, zero, b"c", b"p", b"r", 2048, &LIMITS);
    assert_eq!(config(past.map(|_| ())), Some(ConfigError::SectorSlotOutOfRange));
}

#[test]
fn c1_checks_batch_then_slot_then_identifiers() {
    let zero: [u8; 32] = [0u8; 32];
    let r = c1(65, 1, 4, Vec::new(), zero, zero, b"c", b"p", b"r", 2048, &LIMITS);
    assert_eq!(config(r.map(|_| ())), Some(ConfigError::BlockOffsetOutOfRange));
    let r = c1(0, 1, 4, Vec::new(), zero, zero, b"c", b"p", b"r", 2048, &LIMITS);
    assert_eq!(config(r.map(|_| ())), Some(ConfigError::SectorSlotOutOfRange));
    let r = c1(0, 1, 0, Vec::new(), zero, zero, b"c\0", b"p", b"r", 2048, &LIMITS);
    assert_eq!(config(r.map(|_| ())), Some(ConfigError::ReplicaIdCountMismatch));
}

#[test]
fn c1_reports_the_first_path_with_a_nul() {
    let zero: [u8; 32] = [0u8; 32];
    let r = c1(0, 1, 0, vec![zero], zero, zero, b"c\0", b"\0p", b"r\0", 2048, &LIMITS);
    assert_eq!(
        fault(r.map(|_| ())),
        Some(PathFault { role: PathRole::CacheDir, index: 0, position: 1 })
    );
    let r = c1(0, 1, 0, vec![zero], zero, zero, b"c", b"\0p", b"r\0", 2048, &LIMITS);
    assert_eq!(
        fault(r.map(|_| ())),
        Some(PathFault { role: PathRole::ParentsFile, index: 0, position: 0 })
    );
    let r = c1(0, 1, 0, vec![zero], zero, zero, b"c", b"p", b"rep\0", 2048, &LIMITS);
    assert_eq!(
        fault(r.map(|_| ())),
        Some(PathFault { role: PathRole::ReplicaFile, index: 0, position: 3 })
    );
}
