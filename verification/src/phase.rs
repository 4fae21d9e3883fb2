//! The four phases of the pipeline. Each function checks a job and lays out
//! the buffers of one engine call; none of them enters the engine.

use crate::marshal::{
    all_distinct, c_string, encode_path, encode_path_list, encodes_each, flatten_replica_ids,
    flattened, has_nul, is_first_nul, is_first_unencodable, path_views,
};
use crate::params::{
    batch_check, check_batch, check_shape, check_slot, shape_check, slot_check, ConfigError,
    Limits,
};
use vstd::prelude::*;

verus! {

/// The status code with which the engine reports that a phase succeeded.
/// Every other code is a failure whose meaning only the engine knows.
pub const SUCCESS: u32 = 0;

/// The phases of the pipeline, in the order in which a batch goes through
/// them.
#[derive(Clone, Copy, Debug, PartialEq, Eq, Structural)]
pub enum Phase {
    /// Replica commitment.
    Pc1,
    /// Tree building and finalization of the replicas.
    Pc2,
    /// Release of what tree building left behind in the engine.
    Cleanup,
    /// Generation of the commitment proof of one sector.
    C1,
}

/// The status code of one engine call, kept together with the phase that
/// produced it. The code is handed on as the engine gave it.
#[derive(Clone, Copy, Debug, PartialEq, Eq, Structural)]
pub struct PhaseResult {
    pub phase: Phase,
    pub code: u32,
}

impl PhaseResult {
    /// Whether the engine reported success.
    pub open spec fn succeeded(self) -> bool {
        self.code == SUCCESS
    }

    /// Tags a status code with the phase that produced it.
    pub fn new(phase: Phase, code: u32) -> (r: PhaseResult)
        ensures
            r == (PhaseResult { phase, code }),
    {
        PhaseResult { phase, code }
    }

    /// Tells whether the engine reported success.
    pub fn is_success(&self) -> (r: bool)
        ensures
            r == self.succeeded(),
    {
        self.code == SUCCESS
    }
}

/// The paths a phase takes, by what they point at.
#[derive(Clone, Copy, Debug, PartialEq, Eq, Structural)]
pub enum PathRole {
    /// The file that describes the parents graph.
    ParentsFile,
    /// The directory that receives the finalized replicas.
    OutputDir,
    /// The data file of one sector.
    DataFile,
    /// The directory that receives the proof artifacts.
    CacheDir,
    /// The replica file of the sector being proved.
    ReplicaFile,
}

/// A path that holds a NUL byte, and where.
#[derive(Clone, Copy, Debug, PartialEq, Eq, Structural)]
pub struct PathFault {
    /// Which path of the call is at fault.
    pub role: PathRole,
    /// For a data file, the sector it belongs to; zero for every other path.
    pub index: usize,
    /// Position of the first NUL byte in the path.
    pub position: usize,
}

/// Why a phase call was not laid out.
#[derive(Clone, Copy, Debug, PartialEq, Eq, Structural)]
pub enum SealError {
    /// A path cannot be written as a NUL-terminated string.
    InvalidInput(PathFault),
    /// The job breaks a rule that can be checked without the engine.
    InvalidConfiguration(ConfigError),
}

/// Whether `fault` names the first NUL byte of the single path `path`, which
/// plays the part `role`.
pub open spec fn is_path_fault(fault: PathFault, role: PathRole, path: Seq<u8>) -> bool {
    &&& fault.role == role
    &&& fault.index == 0
    &&& is_first_nul(path, fault.position as int)
}

/// Whether `fault` names the first NUL byte of the first data file that
/// holds one.
pub open spec fn is_data_file_fault(fault: PathFault, files: Seq<Seq<u8>>) -> bool {
    &&& fault.role == PathRole::DataFile
    &&& is_first_unencodable(files, fault.index as int)
    &&& is_first_nul(files[fault.index as int], fault.position as int)
}

/// Encodes the single path that plays the part `role` in a call.
fn encode_as(role: PathRole, path: &[u8]) -> (r: Result<Vec<u8>, SealError>)
    ensures
        match r {
            Ok(bytes) => !has_nul(path@) && bytes@ == c_string(path@),
            Err(SealError::InvalidInput(fault)) => has_nul(path@) && is_path_fault(
                fault,
                role,
                path@,
            ),
            Err(SealError::InvalidConfiguration(_)) => false,
        },
{
    match encode_path(path) {
        Ok(bytes) => Ok(bytes),
        Err(e) => {
            assert(has_nul(path@)) by {
                assert(path@[e.position as int] == 0u8);
            }
            Err(SealError::InvalidInput(PathFault { role, index: 0, position: e.position }))
        },
    }
}

/// The buffers and numbers of one replica-commitment call.
#[derive(Debug, PartialEq, Eq)]
pub struct Pc1Call {
    pub block_offset: usize,
    pub num_sectors: usize,
    /// The replica identifiers of the batch, flattened.
    pub replica_ids: Vec<u8>,
    /// The parents file, NUL-terminated.
    pub parents_filename: Vec<u8>,
    pub sector_size: usize,
}

/// What is wrong with a job that carries one replica identifier for each
/// sector, if anything: a fault of the batch, or else the wrong number of
/// identifiers.
pub open spec fn replica_batch_check(
    block_offset: usize,
    num_sectors: usize,
    num_replica_ids: nat,
    sector_size: usize,
    limits: Limits,
) -> Result<(), ConfigError> {
    if batch_check(block_offset, num_sectors, sector_size, limits) is Err {
        batch_check(block_offset, num_sectors, sector_size, limits)
    } else if num_replica_ids != num_sectors {
        Err(ConfigError::ReplicaIdCountMismatch)
    } else {
        Ok(())
    }
}

/// Lays out a replica-commitment call for a batch.
///
/// The job is checked first, then the parents file is encoded; the first
/// failure is the one reported. The identifiers are flattened in batch order.
pub fn pc1(
    block_offset: usize,
    num_sectors: usize,
    replica_ids: Vec<[u8; 32]>,
    parents_filename: &[u8],
    sector_size: usize,
    limits: &Limits,
) -> (r: Result<Pc1Call, SealError>)
    ensures
        match r {
            Ok(call) => {
                &&& replica_batch_check(
                    block_offset,
                    num_sectors,
                    replica_ids.len() as nat,
                    sector_size,
                    *limits,
                ) is Ok
                &&& !has_nul(parents_filename@)
                &&& call.block_offset == block_offset
                &&& call.num_sectors == num_sectors
                &&& call.sector_size == sector_size
                &&& call.replica_ids@ == flattened(replica_ids@)
                &&& call.replica_ids@.len() == 32 * num_sectors
                &&& call.parents_filename@ == c_string(parents_filename@)
            },
            Err(SealError::InvalidConfiguration(e)) => replica_batch_check(
                block_offset,
                num_sectors,
                replica_ids.len() as nat,
                sector_size,
                *limits,
            ) == Err::<(), ConfigError>(e),
            Err(SealError::InvalidInput(fault)) => {
                &&& replica_batch_check(
                    block_offset,
                    num_sectors,
                    replica_ids.len() as nat,
                    sector_size,
                    *limits,
                ) is Ok
                &&& is_path_fault(fault, PathRole::ParentsFile, parents_filename@)
            },
        },
{
    if let Err(e) = check_batch(block_offset, num_sectors, sector_size, limits) {
        return Err(SealError::InvalidConfiguration(e));
    }
    if replica_ids.len() != num_sectors {
        return Err(SealError::InvalidConfiguration(ConfigError::ReplicaIdCountMismatch));
    }
    let parents_filename_c: Vec<u8> = match encode_as(PathRole::ParentsFile, parents_filename) {
        Ok(bytes) => bytes,
        Err(e) => {
            return Err(e);
        },
    };
    let flat: Vec<u8> = flatten_replica_ids(&replica_ids);
    Ok(
        Pc1Call {
            block_offset,
            num_sectors,
            replica_ids: flat,
            parents_filename: parents_filename_c,
            sector_size,
        },
    )
}

/// The buffers and numbers of one tree-building call.
#[derive(Debug, PartialEq, Eq)]
pub struct Pc2Call {
    pub block_offset: usize,
    pub num_sectors: usize,
    /// The output directory, NUL-terminated.
    pub output_dir: Vec<u8>,
    /// The data file of each sector, each NUL-terminated, in batch order;
    /// `None` leaves the choice of files to the engine.
    pub data_filenames: Option<Vec<Vec<u8>>>,
    pub sector_size: usize,
}

/// The byte strings of an optional list of data files.
pub open spec fn data_file_views(files: Option<&[Vec<u8>]>) -> Option<Seq<Seq<u8>>> {
    match files {
        None => None,
        Some(list) => Some(path_views(list@)),
    }
}

/// What is wrong with a list of data files, if anything: a list that is
/// given must name one file for each sector and no file twice.
pub open spec fn data_files_check(num_sectors: usize, files: Option<Seq<Seq<u8>>>) -> Result<
    (),
    ConfigError,
> {
    match files {
        None => Ok(()),
        Some(list) => {
            if list.len() != num_sectors {
                Err(ConfigError::DataFileCountMismatch)
            } else if !list.no_duplicates() {
                Err(ConfigError::DuplicateDataFile)
            } else {
                Ok(())
            }
        },
    }
}

/// What is wrong with a tree-building job, if anything: a fault of the
/// batch, or else one of its data files.
pub open spec fn pc2_check(
    block_offset: usize,
    num_sectors: usize,
    files: Option<Seq<Seq<u8>>>,
    sector_size: usize,
    limits: Limits,
) -> Result<(), ConfigError> {
    if batch_check(block_offset, num_sectors, sector_size, limits) is Err {
        batch_check(block_offset, num_sectors, sector_size, limits)
    } else {
        data_files_check(num_sectors, files)
    }
}

/// Lays out a tree-building call for a batch.
///
/// The job is checked first, then the paths are encoded: the output
/// directory, then the data files in batch order. The first failure is the
/// one reported. A list of data files that is left out stays left out, which
/// tells the engine to use its own; an empty list is a list, and fits no
/// batch.
pub fn pc2(
    block_offset: usize,
    num_sectors: usize,
    output_dir: &[u8],
    data_filenames: Option<&[Vec<u8>]>,
    sector_size: usize,
    limits: &Limits,
) -> (r: Result<Pc2Call, SealError>)
    ensures
        match r {
            Ok(call) => {
                &&& pc2_check(
                    block_offset,
                    num_sectors,
                    data_file_views(data_filenames),
                    sector_size,
                    *limits,
                ) is Ok
                &&& call.block_offset == block_offset
                &&& call.num_sectors == num_sectors
                &&& call.sector_size == sector_size
                &&& !has_nul(output_dir@)
                &&& call.output_dir@ == c_string(output_dir@)
                &&& match data_filenames {
                    None => call.data_filenames is None,
                    Some(list) => call.data_filenames matches Some(encoded) && encodes_each(
                        path_views(list@),
                        path_views(encoded@),
                    ),
                }
            },
            Err(SealError::InvalidConfiguration(e)) => pc2_check(
                block_offset,
                num_sectors,
                data_file_views(data_filenames),
                sector_size,
                *limits,
            ) == Err::<(), ConfigError>(e),
            Err(SealError::InvalidInput(fault)) => {
                &&& pc2_check(
                    block_offset,
                    num_sectors,
                    data_file_views(data_filenames),
                    sector_size,
                    *limits,
                ) is Ok
                &&& if has_nul(output_dir@) {
                    is_path_fault(fault, PathRole::OutputDir, output_dir@)
                } else {
                    data_filenames matches Some(list) && is_data_file_fault(
                        fault,
                        path_views(list@),
                    )
                }
            },
        },
{
    if let Err(e) = check_batch(block_offset, num_sectors, sector_size, limits) {
        return Err(SealError::InvalidConfiguration(e));
    }
    if let Some(list) = data_filenames {
        if list.len() != num_sectors {
            return Err(SealError::InvalidConfiguration(ConfigError::DataFileCountMismatch));
        }
        if !all_distinct(list) {
            return Err(SealError::InvalidConfiguration(ConfigError::DuplicateDataFile));
        }
    }
    let output_dir_c: Vec<u8> = match encode_as(PathRole::OutputDir, output_dir) {
        Ok(bytes) => bytes,
        Err(e) => {
            return Err(e);
        },
    };
    let data_filenames_c: Option<Vec<Vec<u8>>> = match data_filenames {
        None => None,
        Some(list) => match encode_path_list(list) {
            Ok(encoded) => Some(encoded),
            Err(e) => {
                return Err(
                    SealError::InvalidInput(
                        PathFault { role: PathRole::DataFile, index: e.index, position: e.position },
                    ),
                );
            },
        },
    };
    Ok(
        Pc2Call {
            block_offset,
            num_sectors,
            output_dir: output_dir_c,
            data_filenames: data_filenames_c,
            sector_size,
        },
    )
}

/// The buffer and numbers of one cleanup call.
#[derive(Debug, PartialEq, Eq)]
pub struct CleanupCall {
    pub num_sectors: usize,
    /// The output directory, NUL-terminated.
    pub output_dir: Vec<u8>,
    pub sector_size: usize,
}

/// Lays out the cleanup call that follows tree building for a batch.
///
/// The shape of the batch is checked first, then the output directory is
/// encoded; the first failure is the one reported.
pub fn pc2_cleanup(num_sectors: usize, output_dir: &[u8], sector_size: usize, limits: &Limits) -> (r:
    Result<CleanupCall, SealError>)
    ensures
        match r {
            Ok(call) => {
                &&& shape_check(num_sectors, sector_size, *limits) is Ok
                &&& !has_nul(output_dir@)
                &&& call.num_sectors == num_sectors
                &&& call.sector_size == sector_size
                &&& call.output_dir@ == c_string(output_dir@)
            },
            Err(SealError::InvalidConfiguration(e)) => shape_check(
                num_sectors,
                sector_size,
                *limits,
            ) == Err::<(), ConfigError>(e),
            Err(SealError::InvalidInput(fault)) => {
                &&& shape_check(num_sectors, sector_size, *limits) is Ok
                &&& is_path_fault(fault, PathRole::OutputDir, output_dir@)
            },
        },
{
    if let Err(e) = check_shape(num_sectors, sector_size, limits) {
        return Err(SealError::InvalidConfiguration(e));
    }
    let output_dir_c: Vec<u8> = match encode_as(PathRole::OutputDir, output_dir) {
        Ok(bytes) => bytes,
        Err(e) => {
            return Err(e);
        },
    };
    Ok(CleanupCall { num_sectors, output_dir: output_dir_c, sector_size })
}

/// The buffers and numbers of one commitment-proof call.
#[derive(Debug, PartialEq, Eq)]
pub struct C1Call {
    pub block_offset: usize,
    pub num_sectors: usize,
    pub sector_slot: usize,
    /// The replica identifiers of the batch, flattened.
    pub replica_ids: Vec<u8>,
    pub seed: [u8; 32],
    pub ticket: [u8; 32],
    /// The cache directory, NUL-terminated.
    pub cache_path: Vec<u8>,
    /// The parents file, NUL-terminated.
    pub parents_filename: Vec<u8>,
    /// The replica file, NUL-terminated.
    pub replica_path: Vec<u8>,
    pub sector_size: usize,
}

/// What is wrong with a commitment-proof job, if anything: a fault of the
/// batch, or else of the sector slot, or else the wrong number of
/// identifiers.
pub open spec fn c1_check(
    block_offset: usize,
    num_sectors: usize,
    sector_slot: usize,
    num_replica_ids: nat,
    sector_size: usize,
    limits: Limits,
) -> Result<(), ConfigError> {
    if batch_check(block_offset, num_sectors, sector_size, limits) is Err {
        batch_check(block_offset, num_sectors, sector_size, limits)
    } else if slot_check(sector_slot, limits) is Err {
        slot_check(sector_slot, limits)
    } else if num_replica_ids != num_sectors {
        Err(ConfigError::ReplicaIdCountMismatch)
    } else {
        Ok(())
    }
}

/// Whether `fault` names the first NUL byte of the first of the three paths
/// of a commitment-proof call that holds one, the paths taken in the order
/// cache directory, parents file, replica file.
pub open spec fn is_c1_path_fault(
    fault: PathFault,
    cache_path: Seq<u8>,
    parents_filename: Seq<u8>,
    replica_path: Seq<u8>,
) -> bool {
    if has_nul(cache_path) {
        is_path_fault(fault, PathRole::CacheDir, cache_path)
    } else if has_nul(parents_filename) {
        is_path_fault(fault, PathRole::ParentsFile, parents_filename)
    } else {
        is_path_fault(fault, PathRole::ReplicaFile, replica_path)
    }
}

/// Lays out a commitment-proof call for the sector in one slot of a batch.
///
/// The job is checked first, then the paths are encoded: the cache
/// directory, the parents file, the replica file. The first failure is the
/// one reported. The identifiers are flattened in batch order; seed and
/// ticket are handed on as they are.
pub fn c1(
    block_offset: usize,
    num_sectors: usize,
    sector_slot: usize,
    replica_ids: Vec<[u8; 32]>,
    seed: [u8; 32],
    ticket: [u8; 32],
    cache_path: &[u8],
    parents_filename: &[u8],
    replica_path: &[u8],
    sector_size: usize,
    limits: &Limits,
) -> (r: Result<C1Call, SealError>)
    ensures
        match r {
            Ok(call) => {
                &&& c1_check(
                    block_offset,
                    num_sectors,
                    sector_slot,
                    replica_ids.len() as nat,
                    sector_size,
                    *limits,
                ) is Ok
                &&& !has_nul(cache_path@)
                &&& !has_nul(parents_filename@)
                &&& !has_nul(replica_path@)
                &&& call.block_offset == block_offset
                &&& call.num_sectors == num_sectors
                &&& call.sector_slot == sector_slot
                &&& call.sector_size == sector_size
                &&& call.replica_ids@ == flattened(replica_ids@)
                &&& call.replica_ids@.len() == 32 * num_sectors
                &&& call.seed == seed
                &&& call.ticket == ticket
                &&& call.cache_path@ == c_string(cache_path@)
                &&& call.parents_filename@ == c_string(parents_filename@)
                &&& call.replica_path@ == c_string(replica_path@)
            },
            Err(SealError::InvalidConfiguration(e)) => c1_check(
                block_offset,
                num_sectors,
                sector_slot,
                replica_ids.len() as nat,
                sector_size,
                *limits,
            ) == Err::<(), ConfigError>(e),
            Err(SealError::InvalidInput(fault)) => {
                &&& c1_check(
                    block_offset,
                    num_sectors,
                    sector_slot,
                    replica_ids.len() as nat,
                    sector_size,
                    *limits,
                ) is Ok
                &&& has_nul(cache_path@) || has_nul(parents_filename@) || has_nul(replica_path@)
                &&& is_c1_path_fault(fault, cache_path@, parents_filename@, replica_path@)
            },
        },
{
    if let Err(e) = check_batch(block_offset, num_sectors, sector_size, limits) {
        return Err(SealError::InvalidConfiguration(e));
    }
    if let Err(e) = check_slot(sector_slot, limits) {
        return Err(SealError::InvalidConfiguration(e));
    }
    if replica_ids.len() != num_sectors {
        return Err(SealError::InvalidConfiguration(ConfigError::ReplicaIdCountMismatch));
    }
    let cache_path_c: Vec<u8> = match encode_as(PathRole::CacheDir, cache_path) {
        Ok(bytes) => bytes,
        Err(e) => {
            return Err(e);
        },
    };
    let parents_filename_c: Vec<u8> = match encode_as(PathRole::ParentsFile, parents_filename) {
        Ok(bytes) => bytes,
        Err(e) => {
            return Err(e);
        },
    };
    let replica_path_c: Vec<u8> = match encode_as(PathRole::ReplicaFile, replica_path) {
        Ok(bytes) => bytes,
        Err(e) => {
            return Err(e);
        },
    };
    let flat: Vec<u8> = flatten_replica_ids(&replica_ids);
    Ok(
        C1Call {
            block_offset,
            num_sectors,
            sector_slot,
            replica_ids: flat,
            seed,
            ticket,
            cache_path: cache_path_c,
            parents_filename: parents_filename_c,
            replica_path: replica_path_c,
            sector_size,
        },
    )
}

} // verus!
