use supraseal::{
    check_batch, check_shape, check_slot, is_power_of_two, BatchKey, ConfigError, Limits,
    SectorParameters,
};

const LIMITS: Limits = Limits { max_block_offset: 1000, slot_size: 8 };

#[test]
fn powers_of_two_are_recognised() {
    for size in [1usize, 2, 4, 2048, 1 << 20, 32 << 30, 1 << 40] {
        assert!(is_power_of_two(size), "{}", size);
    }
    assert!(is_power_of_two(1usize << (usize::BITS - 1)));
}

#[test]
fn other_numbers_are_not_powers_of_two() {
    for size in [0usize, 3, 6, 12, 2047, 2049, 1000, usize::MAX] {
        assert!(!is_power_of_two(size), "{}", size);
    }
}

#[test]
fn shape_within_limits_is_accepted() {
    assert_eq!(check_shape(1, 2048, &LIMITS), Ok(()));
    assert_eq!(check_shape(8, 2048, &LIMITS), Ok(()));
}

#[test]
fn shape_faults_come_in_a_fixed_order() {
    assert_eq!(check_shape(0, 2047, &LIMITS), Err(ConfigError::SectorSizeNotPowerOfTwo));
    assert_eq!(check_shape(9, 0, &LIMITS), Err(ConfigError::SectorSizeNotPowerOfTwo));
    assert_eq!(check_shape(0, 2048, &LIMITS), Err(ConfigError::NoSectors));
    assert_eq!(check_shape(9, 2048, &LIMITS), Err(ConfigError::TooManySectors));
}

#[test]
fn no_sector_count_fits_a_slot_without_room() {
    let none: Limits = Limits { max_block_offset: 1000, slot_size: 0 };
    assert_eq!(check_shape(0, 2048, &none), Err(ConfigError::NoSectors));
    assert_eq!(check_shape(1, 2048, &none), Err(ConfigError::TooManySectors));
}

#[test]
fn block_offset_may_reach_the_maximum_and_no_further() {
    assert_eq!(check_batch(0, 1, 2048, &LIMITS), Ok(()));
    assert_eq!(check_batch(1000, 1, 2048, &LIMITS), Ok(()));
    assert_eq!(check_batch(1001, 1, 2048, &LIMITS), Err(ConfigError::BlockOffsetOutOfRange));
    assert_eq!(check_batch(usize::MAX, 1, 2048, &LIMITS), Err(ConfigError::BlockOffsetOutOfRange));
}

#[test]
fn batch_reports_a_shape_fault_before_the_block_offset() {
    assert_eq!(check_batch(5000, 0, 2048, &LIMITS), Err(ConfigError::NoSectors));
    assert_eq!(check_batch(5000, 9, 2048, &LIMITS), Err(ConfigError::TooManySectors));
    assert_eq!(check_batch(5000, 1, 24, &LIMITS), Err(ConfigError::SectorSizeNotPowerOfTwo));
}

#[test]
fn sector_slot_must_lie_below_the_capacity() {
    assert_eq!(check_slot(0, &LIMITS), Ok(()));
    assert_eq!(check_slot(7, &LIMITS), Ok(()));
    assert_eq!(check_slot(8, &LIMITS), Err(ConfigError::SectorSlotOutOfRange));
}

#[test]
fn parameters_are_validated_batch_first_then_slot() {
    let good: SectorParameters =
        SectorParameters { sector_size: 2048, num_sectors: 2, block_offset: 10, sector_slot: 1 };
    assert_eq!(good.validate(&LIMITS), Ok(()));
    let bad_slot: SectorParameters = SectorParameters { sector_slot: 8, ..good };
    assert_eq!(bad_slot.validate(&LIMITS), Err(ConfigError::SectorSlotOutOfRange));
    let bad_both: SectorParameters = SectorParameters { block_offset: 1001, sector_slot: 8, ..good };
    assert_eq!(bad_both.validate(&LIMITS), Err(ConfigError::BlockOffsetOutOfRange));
}

#[test]
fn parameters_name_their_batch() {
    let job: SectorParameters =
        SectorParameters { sector_size: 2048, num_sectors: 2, block_offset: 10, sector_slot: 1 };
    assert_eq!(job.batch(), BatchKey { block_offset: 10, num_sectors: 2, sector_size: 2048 });
}
