//! Sector parameters and their validation against the limits of the engine.

use vstd::arithmetic::power2::is_pow2;
use vstd::prelude::*;

verus! {

/// The two bounds the engine reports for a batch shape: the largest block
/// offset it accepts for a sector size, and the capacity of one slot.
#[derive(Clone, Copy, Debug, PartialEq, Eq, Structural)]
pub struct Limits {
    pub max_block_offset: usize,
    pub slot_size: usize,
}

/// What identifies a batch across the phases.
#[derive(Clone, Copy, Debug, PartialEq, Eq, Structural)]
pub struct BatchKey {
    pub block_offset: usize,
    pub num_sectors: usize,
    pub sector_size: usize,
}

/// The numbers that describe a sealing job.
#[derive(Clone, Copy, Debug, PartialEq, Eq, Structural)]
pub struct SectorParameters {
    /// Size in bytes of one sealed sector.
    pub sector_size: usize,
    /// Number of sectors handled together in one call.
    pub num_sectors: usize,
    /// Offset of the batch in the replication address space, from zero.
    pub block_offset: usize,
    /// Slot of the sector whose commitment proof is generated.
    pub sector_slot: usize,
}

/// Why a job description was turned down before any buffer was built.
#[derive(Clone, Copy, Debug, PartialEq, Eq, Structural)]
pub enum ConfigError {
    /// The sector size is not a power of two.
    SectorSizeNotPowerOfTwo,
    /// The batch holds no sector.
    NoSectors,
    /// The batch holds more sectors than a slot has room for.
    TooManySectors,
    /// The block offset lies beyond the largest one the engine accepts.
    BlockOffsetOutOfRange,
    /// The sector slot is not below the slot capacity.
    SectorSlotOutOfRange,
    /// The number of replica identifiers differs from the number of sectors.
    ReplicaIdCountMismatch,
    /// The number of data files differs from the number of sectors.
    DataFileCountMismatch,
    /// Two sectors of the batch name the same data file.
    DuplicateDataFile,
    /// The phase may not run in the state the batch is in.
    PhaseOutOfOrder,
}

/// Decides whether `n` is a power of two by halving it while it stays even.
pub fn is_power_of_two(n: usize) -> (r: bool)
    ensures
        r == is_pow2(n as int),
{
    if n == 0 {
        proof {
            reveal(is_pow2);
        }
        return false;
    }
    let mut rest: usize = n;
    while rest % 2 == 0
        invariant
            0 < rest <= n,
            is_pow2(rest as int) == is_pow2(n as int),
        decreases rest,
    {
        proof {
            reveal(is_pow2);
        }
        rest = rest / 2;
    }
    proof {
        reveal(is_pow2);
    }
    rest == 1
}

/// What is wrong with the number of sectors or their size, if anything. The
/// sector size is looked at first, then the sector count against zero and
/// against the slot capacity; the first fault found is the answer.
pub open spec fn shape_check(num_sectors: usize, sector_size: usize, limits: Limits) -> Result<
    (),
    ConfigError,
> {
    if !is_pow2(sector_size as int) {
        Err(ConfigError::SectorSizeNotPowerOfTwo)
    } else if num_sectors == 0 {
        Err(ConfigError::NoSectors)
    } else if num_sectors > limits.slot_size {
        Err(ConfigError::TooManySectors)
    } else {
        Ok(())
    }
}

/// What is wrong with a batch, if anything: a fault of its shape, or else a
/// block offset beyond the largest one the engine accepts.
pub open spec fn batch_check(
    block_offset: usize,
    num_sectors: usize,
    sector_size: usize,
    limits: Limits,
) -> Result<(), ConfigError> {
    if shape_check(num_sectors, sector_size, limits) is Err {
        shape_check(num_sectors, sector_size, limits)
    } else if block_offset > limits.max_block_offset {
        Err(ConfigError::BlockOffsetOutOfRange)
    } else {
        Ok(())
    }
}

/// A batch that passes the check lies within every limit: its sector size is
/// a power of two, it holds at least one sector and no more than a slot has
/// room for, and its block offset does not exceed the largest one the engine
/// accepts. A block offset beyond that maximum is never let through.
pub proof fn lemma_checked_batch_is_within_limits(
    block_offset: usize,
    num_sectors: usize,
    sector_size: usize,
    limits: Limits,
)
    ensures
        batch_check(block_offset, num_sectors, sector_size, limits) is Ok <==> {
            &&& is_pow2(sector_size as int)
            &&& 1 <= num_sectors <= limits.slot_size
            &&& block_offset <= limits.max_block_offset
        },
        block_offset > limits.max_block_offset ==> batch_check(
            block_offset,
            num_sectors,
            sector_size,
            limits,
        ) is Err,
{
}

/// Whether a sector slot lies within the slot capacity.
pub open spec fn slot_check(sector_slot: usize, limits: Limits) -> Result<(), ConfigError> {
    if sector_slot >= limits.slot_size {
        Err(ConfigError::SectorSlotOutOfRange)
    } else {
        Ok(())
    }
}

/// Checks the number of sectors and their size against the limits of the
/// engine.
pub fn check_shape(num_sectors: usize, sector_size: usize, limits: &Limits) -> (r: Result<
    (),
    ConfigError,
>)
    ensures
        r == shape_check(num_sectors, sector_size, *limits),
{
    if !is_power_of_two(sector_size) {
        Err(ConfigError::SectorSizeNotPowerOfTwo)
    } else if num_sectors == 0 {
        Err(ConfigError::NoSectors)
    } else if num_sectors > limits.slot_size {
        Err(ConfigError::TooManySectors)
    } else {
        Ok(())
    }
}

/// Checks a batch against the limits of the engine.
pub fn check_batch(block_offset: usize, num_sectors: usize, sector_size: usize, limits: &Limits) -> (r:
    Result<(), ConfigError>)
    ensures
        r == batch_check(block_offset, num_sectors, sector_size, *limits),
{
    match check_shape(num_sectors, sector_size, limits) {
        Err(e) => Err(e),
        Ok(_) => {
            if block_offset > limits.max_block_offset {
                Err(ConfigError::BlockOffsetOutOfRange)
            } else {
                Ok(())
            }
        },
    }
}

impl SectorParameters {
    /// What is wrong with the job, if anything: a fault of the batch, or
    /// else of the sector slot.
    pub open spec fn check(self, limits: Limits) -> Result<(), ConfigError> {
        if batch_check(self.block_offset, self.num_sectors, self.sector_size, limits) is Err {
            batch_check(self.block_offset, self.num_sectors, self.sector_size, limits)
        } else {
            slot_check(self.sector_slot, limits)
        }
    }

    /// Checks the job against the limits of the engine.
    pub fn validate(&self, limits: &Limits) -> (r: Result<(), ConfigError>)
        ensures
            r == self.check(*limits),
    {
        match check_batch(self.block_offset, self.num_sectors, self.sector_size, limits) {
            Err(e) => Err(e),
            Ok(_) => check_slot(self.sector_slot, limits),
        }
    }

    /// The batch the job belongs to.
    pub fn batch(&self) -> (key: BatchKey)
        ensures
            key.block_offset == self.block_offset,
            key.num_sectors == self.num_sectors,
            key.sector_size == self.sector_size,
    {
        BatchKey {
            block_offset: self.block_offset,
            num_sectors: self.num_sectors,
            sector_size: self.sector_size,
        }
    }
}

/// Checks a sector slot against the slot capacity.
pub fn check_slot(sector_slot: usize, limits: &Limits) -> (r: Result<(), ConfigError>)
    ensures
        r == slot_check(sector_slot, *limits),
{
    if sector_slot >= limits.slot_size {
        Err(ConfigError::SectorSlotOutOfRange)
    } else {
        Ok(())
    }
}

} // verus!
