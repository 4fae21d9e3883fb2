//! Caller-side half of a batched sector-sealing pipeline.
//!
//! A sealing engine runs four phases over a batch of sectors: replica
//! commitment (PC1), tree building (PC2), cleanup, and commitment-proof
//! generation (C1). This crate holds everything that can be decided before the
//! engine is entered: whether a job fits the limits the engine reported, how
//! identifiers and paths are laid out in the buffers the engine reads, and
//! whether a phase may run given what has already run for the batch.
//!
//! Nothing here performs I/O. Each phase function turns its arguments into a
//! call record holding the exact bytes to hand over, or says why it will not.

pub mod marshal;
pub mod params;
pub mod phase;
pub mod sequencer;

pub use crate::marshal::{
    all_distinct, decode_path, encode_path, encode_path_list, flatten_replica_ids,
    unflatten_replica_ids, EmbeddedNul, UnencodablePath, ID_LEN,
};
pub use crate::params::{
    check_batch, check_shape, check_slot, is_power_of_two, BatchKey, ConfigError, Limits,
    SectorParameters,
};
pub use crate::phase::{
    c1, pc1, pc2, pc2_cleanup, C1Call, CleanupCall, PathFault, PathRole, Pc1Call, Pc2Call, Phase,
    PhaseResult, SealError, SUCCESS,
};
pub use crate::sequencer::{
    advance, check_order, step, Admission, BatchState, Event, Sequencer, Step,
};
