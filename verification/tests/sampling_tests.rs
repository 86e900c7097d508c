use particle_tracker::sampling::{accumulate, equalize, normalize, select_index, sum, WEIGHT_UNIT};

#[test]
fn weight_unit_is_two_to_the_thirty_two() {
    assert_eq!(WEIGHT_UNIT, 4_294_967_296);
}

#[test]
fn sum_of_no_weights_is_zero() {
    assert_eq!(sum(&[]), 0);
}

#[test]
fn sum_adds_all_weights() {
    assert_eq!(sum(&[1, 2, 3]), 6);
}

#[test]
fn sum_does_not_overflow_on_largest_weights() {
    assert_eq!(sum(&[u64::MAX, u64::MAX]), 2 * (u64::MAX as u128));
}

#[test]
fn normalize_divides_by_the_sum() {
    let mut w = vec![1, 1, 2];
    assert!(normalize(&mut w));
    assert_eq!(w, vec![1_073_741_824, 1_073_741_824, 2_147_483_648]);
    assert_eq!(sum(&w), WEIGHT_UNIT as u128);
}

#[test]
fn normalize_rounds_every_share_down() {
    let mut w = vec![1, 1, 1];
    assert!(normalize(&mut w));
    assert_eq!(w, vec![1_431_655_765, 1_431_655_765, 1_431_655_765]);
}

#[test]
fn normalized_weights_sum_to_one_within_one_step_per_weight() {
    let mut w = vec![3, 1, 4, 1, 5, 9, 2, 6, 5, 3, 5];
    let n = w.len() as u128;
    assert!(normalize(&mut w));
    let total = sum(&w);
    assert!(total <= WEIGHT_UNIT as u128);
    assert!(total + n > WEIGHT_UNIT as u128);
}

#[test]
fn normalize_takes_the_largest_weights() {
    let mut w = vec![u64::MAX, u64::MAX];
    assert!(normalize(&mut w));
    assert_eq!(w, vec![2_147_483_648, 2_147_483_648]);
}

#[test]
fn normalize_refuses_weights_that_sum_to_zero() {
    let mut w = vec![0, 0, 0];
    assert!(!normalize(&mut w));
    assert_eq!(w, vec![0, 0, 0]);
}

#[test]
fn normalize_refuses_no_weights() {
    let mut w: Vec<u64> = vec![];
    assert!(!normalize(&mut w));
    assert!(w.is_empty());
}

#[test]
fn equalize_gives_equal_shares() {
    let mut w = vec![7, 0, 9, 1];
    equalize(&mut w);
    assert_eq!(w, vec![1_073_741_824; 4]);
    let mut w = vec![0, 0, 0];
    equalize(&mut w);
    assert_eq!(w, vec![1_431_655_765; 3]);
    assert_eq!(sum(&w), WEIGHT_UNIT as u128 - 1);
}

#[test]
fn equalize_leaves_no_weights_alone() {
    let mut w: Vec<u64> = vec![];
    equalize(&mut w);
    assert!(w.is_empty());
}

#[test]
fn accumulate_builds_running_sums() {
    let mut w = vec![1, 2, 3];
    accumulate(&mut w);
    assert_eq!(w, vec![1, 3, 6]);
}

#[test]
fn running_sums_never_fall_and_end_at_the_total() {
    let mut w = vec![3, 0, 4, 0, 0, 9, 2];
    assert!(normalize(&mut w));
    let total = sum(&w);
    accumulate(&mut w);
    for i in 1..w.len() {
        assert!(w[i - 1] <= w[i]);
    }
    assert_eq!(w[w.len() - 1] as u128, total);
    assert!(total <= WEIGHT_UNIT as u128);
    assert!(total + 7 > WEIGHT_UNIT as u128);
}

#[test]
fn select_index_finds_the_first_sum_that_reaches_the_draw() {
    let c = [10, 20, 30];
    assert_eq!(select_index(&c, 1), 0);
    assert_eq!(select_index(&c, 10), 0);
    assert_eq!(select_index(&c, 11), 1);
    assert_eq!(select_index(&c, 20), 1);
    assert_eq!(select_index(&c, 21), 2);
    assert_eq!(select_index(&c, 30), 2);
}

#[test]
fn draw_of_zero_selects_the_first_index() {
    assert_eq!(select_index(&[10, 20, 30], 0), 0);
    assert_eq!(select_index(&[0, 0, 7], 0), 0);
    assert_eq!(select_index(&[0], 0), 0);
}

#[test]
fn draw_beyond_the_last_sum_is_clamped_to_the_last_index() {
    let c = [10, 20, 30];
    assert_eq!(select_index(&c, 31), 2);
    assert_eq!(select_index(&c, u64::MAX), 2);
    assert_eq!(select_index(&[5], 6), 0);
}

#[test]
fn draw_equal_to_the_last_sum_selects_the_last_index_with_weight() {
    assert_eq!(select_index(&[10, 20, 30], 30), 2);
    assert_eq!(select_index(&[5, 5], 5), 0);
    assert_eq!(select_index(&[5, 9, 9, 9], 9), 1);
}

#[test]
fn select_index_skips_particles_without_weight() {
    let c = [0, 0, 7, 7, 9];
    assert_eq!(select_index(&c, 1), 2);
    assert_eq!(select_index(&c, 7), 2);
    assert_eq!(select_index(&c, 8), 4);
}
