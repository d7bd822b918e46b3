use lipsync::classifier::{classify, nearest, Score};

fn scores(orders: &[u64]) -> Vec<Score<f64>> {
    orders.iter().map(|o| Score { distance: *o as f64 / 2.0, order: *o }).collect()
}

fn scores_of(distances: &[f64]) -> Vec<Score<f64>> {
    distances.iter().map(|d| Score { distance: *d, order: d.to_bits() }).collect()
}

#[test]
fn nearest_of_no_vowels_is_none() {
    assert_eq!(nearest::<f64>(&[]), None);
}

#[test]
fn nearest_picks_the_least_distance() {
    assert_eq!(nearest(&scores(&[5])), Some(0));
    assert_eq!(nearest(&scores(&[5, 3, 9])), Some(1));
    assert_eq!(nearest(&scores(&[5, 3, 9, 1])), Some(3));
    assert_eq!(nearest(&scores(&[u64::MAX, u64::MAX - 1])), Some(1));
}

#[test]
fn nearest_breaks_ties_by_the_lowest_index() {
    assert_eq!(nearest(&scores(&[4, 2, 2, 7, 2])), Some(1));
    assert_eq!(nearest(&scores(&[0, 0, 0])), Some(0));
    assert_eq!(nearest(&scores(&[u64::MAX, u64::MAX])), Some(0));
}

#[test]
fn nearest_goes_by_the_order_alone() {
    let mixed = vec![
        Score { distance: 0.0_f64, order: 9 },
        Score { distance: 100.0, order: 1 },
        Score { distance: 50.0, order: 4 },
    ];
    assert_eq!(nearest(&mixed), Some(1));
}

#[test]
fn nearest_orders_bit_patterns_of_distances_as_the_distances() {
    assert_eq!(nearest(&scores_of(&[2.5, 0.125, 0.0, 1e300, 0.1249])), Some(2));
    assert_eq!(nearest(&scores_of(&[2.5, 0.125, 1e300, 0.1249])), Some(3));
    assert_eq!(nearest(&scores_of(&[f64::INFINITY, f64::MAX, f64::MIN_POSITIVE])), Some(2));
}

#[test]
fn classify_names_the_nearest_vowel_and_its_distance() {
    let found = classify(vec![1.0, 2.0], &scores_of(&[2.5, 0.125, 7.0]), 0.5, 0.001, 0.0);
    assert_eq!(found.index, 1);
    assert_eq!(found.distance, 0.125);
    assert_eq!(found.mfcc, vec![1.0, 2.0]);
    assert_eq!(found.volume, 0.5);
    assert_eq!(found.raw_volume, 0.001);
}

#[test]
fn classify_breaks_ties_by_the_lowest_index() {
    let found = classify(vec![1.0], &scores_of(&[3.0, 1.5, 1.5, 1.5]), 1.0, 0.01, 0.0);
    assert_eq!(found.index, 1);
    assert_eq!(found.distance, 1.5);
}

#[test]
fn classify_without_vowels_is_unknown() {
    let found = classify(vec![1.0, 2.0], &[], 0.5, 0.001, -9.0);
    assert_eq!(found.index, -1);
    assert_eq!(found.distance, -9.0);
    assert_eq!(found.mfcc, vec![1.0, 2.0]);
    assert_eq!(found.volume, 0.5);
    assert_eq!(found.raw_volume, 0.001);
}
