use gravity_sim::params::MASS_FIELD_SIZE;
use gravity_sim::params::MAX_MIP_LEVELS;
use gravity_sim::params::MIN_REGION;
use gravity_sim::params::MIP_LEVEL_DOWNSAMPLING;
use gravity_sim::pyramid::compute_level_extents;
use gravity_sim::pyramid::next_dim;

#[test]
fn standard_extent_builds_the_full_ladder() {
    let levels = compute_level_extents(MASS_FIELD_SIZE, MIP_LEVEL_DOWNSAMPLING, MIN_REGION);
    let widths: Vec<u32> = levels.iter().map(|l| l.width).collect();
    assert_eq!(widths, vec![2187, 729, 243, 81, 27, 9, 3, 1]);
    for level in &levels {
        assert_eq!(level.width, level.height);
    }
    assert!(levels.len() as u32 <= MAX_MIP_LEVELS);
}

#[test]
fn extent_at_the_minimum_region_gives_one_level() {
    let levels = compute_level_extents(MIN_REGION, MIP_LEVEL_DOWNSAMPLING, MIN_REGION);
    assert_eq!(levels.len(), 1);
    assert_eq!(levels[0].width, MIN_REGION);
    assert_eq!(levels[0].height, MIN_REGION);
}

#[test]
fn construction_stops_exactly_at_the_minimum_region() {
    let levels = compute_level_extents(100, 3, 2);
    // 100 -> 33 -> 11 -> 3 -> 1
    let widths: Vec<u32> = levels.iter().map(|l| l.width).collect();
    assert_eq!(widths, vec![100, 33, 11, 3, 1]);
    for (k, level) in levels.iter().enumerate() {
        if k + 1 < levels.len() {
            assert!(level.width > 2 || level.height > 2);
        } else {
            assert!(level.width <= 2 && level.height <= 2);
        }
    }
}

#[test]
fn level_count_is_monotone_in_extent() {
    let mut previous = 0usize;
    for extent in [1u32, 2, 5, 20, 100, 700, 2187] {
        let count = compute_level_extents(extent, 3, 2).len();
        assert!(count >= previous);
        previous = count;
    }
}

#[test]
fn level_count_is_monotone_in_minimum_region() {
    let mut previous = usize::MAX;
    for min_region in [1u32, 2, 4, 9, 30, 100] {
        let count = compute_level_extents(729, 3, min_region).len();
        assert!(count <= previous);
        previous = count;
    }
}

#[test]
fn level_count_is_pinned_by_the_region_bound() {
    // (m + 1) * factor^(count - 2) <= extent < (m + 1) * factor^(count - 1)
    // for more than one level, and extent <= m * factor^count in general.
    for extent in [1u32, 2, 3, 5, 9, 50, 400, 2187] {
        let factor = 3u64;
        let m = 2u64;
        let count = compute_level_extents(extent, 3, 2).len() as u32;
        let e = extent as u64;
        assert!(e <= m * factor.pow(count));
        if count >= 2 {
            assert!(e >= (m + 1) * factor.pow(count - 2));
            assert!(e < (m + 1) * factor.pow(count - 1));
        } else {
            assert!(e <= m);
        }
    }
}

#[test]
fn next_dim_never_drops_below_one_cell() {
    assert_eq!(next_dim(2187, 3), 729);
    assert_eq!(next_dim(4, 3), 1);
    assert_eq!(next_dim(2, 3), 1);
    assert_eq!(next_dim(1, 3), 1);
}
