use idb::learned_index::{exact_lookup, lower_bound, upper_bound, IndexError, PredictionWindow};

fn sample_keys() -> Vec<u128> {
    vec![10, 20, 25, 40, 70, 90, 120, 160, 200, 260]
}

fn window(lower: usize, upper: usize) -> PredictionWindow {
    PredictionWindow { lower, upper }
}

#[test]
fn exact_lookup_finds_keys_inside_the_window() {
    let keys = sample_keys();
    for (position, key) in keys.iter().enumerate() {
        assert_eq!(exact_lookup(&keys, window(0, 9), *key), Some(position));
    }
    assert_eq!(exact_lookup(&keys, window(2, 4), 40), Some(3));
    assert_eq!(exact_lookup(&keys, window(0, 2), 40), None);
    assert_eq!(exact_lookup(&keys, window(0, 9), 41), None);
    assert_eq!(exact_lookup(&[], window(0, 9), 41), None);
    assert_eq!(exact_lookup(&keys, window(5, 50), 260), Some(9));
}

#[test]
fn bounds_within_the_window() {
    let keys = sample_keys();
    assert_eq!(lower_bound(&keys, window(0, 9), 25), 2);
    assert_eq!(upper_bound(&keys, window(0, 9), 25), 3);
    assert_eq!(lower_bound(&keys, window(0, 9), 26), 3);
    assert_eq!(upper_bound(&keys, window(0, 9), 1000), 10);
    assert_eq!(lower_bound(&keys, window(0, 9), 0), 0);
    assert_eq!(lower_bound(&keys, window(4, 6), 10), 4);
    assert_eq!(upper_bound(&keys, window(4, 6), 1000), 7);
    assert_eq!(lower_bound(&[], window(0, 3), 7), 0);
    assert_eq!(upper_bound(&[], window(0, 3), 7), 0);
}

#[test]
fn prediction_window_range_and_error_text() {
    let w = window(3, 7);
    assert_eq!(w.range(), 3..=7);
    assert_eq!(
        IndexError::EmptyTrainingSet.message(),
        "cannot train learned index with empty keys"
    );
}
