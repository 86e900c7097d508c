use particle_tracker::ranking::rank;

#[test]
fn rank_of_no_weights_is_empty() {
    assert!(rank(&[]).is_empty());
}

#[test]
fn rank_lists_the_heaviest_first() {
    assert_eq!(rank(&[5, 9, 1, 7]), vec![1, 3, 0, 2]);
    assert_eq!(rank(&[1, 2, 3, 4, 5]), vec![4, 3, 2, 1, 0]);
    assert_eq!(rank(&[5, 4, 3, 2, 1]), vec![0, 1, 2, 3, 4]);
    assert_eq!(rank(&[42]), vec![0]);
}

#[test]
fn rank_keeps_equal_weights_in_rising_order() {
    assert_eq!(rank(&[3, 8, 3, 8, 3]), vec![1, 3, 0, 2, 4]);
    assert_eq!(rank(&[0, 0, 0]), vec![0, 1, 2]);
    assert_eq!(rank(&[u64::MAX, 0, u64::MAX]), vec![0, 2, 1]);
}

#[test]
fn rank_lists_every_index_once() {
    let w: Vec<u64> = (0..200u64).map(|i| (i * 7919) % 31).collect();
    let order = rank(&w);
    let mut seen = vec![false; w.len()];
    for &i in order.iter() {
        assert!(!seen[i]);
        seen[i] = true;
    }
    assert!(seen.iter().all(|s| *s));
    for k in 1..order.len() {
        let (a, b) = (order[k - 1], order[k]);
        assert!(w[a] > w[b] || (w[a] == w[b] && a < b));
    }
}
