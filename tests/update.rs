use rl_demo::network::make_8react_network;
use rl_demo::update::{occurrence_counts, recent_window, Learning};

#[test]
fn counts_a_transition_taken_three_times() {
    let counts = occurrence_counts(&vec![2, 0, 2, 7, 2], 8);
    assert_eq!(counts, vec![1, 0, 3, 0, 0, 0, 0, 1]);
}

#[test]
fn counts_of_an_empty_trajectory() {
    assert_eq!(occurrence_counts(&Vec::new(), 3), vec![0, 0, 0]);
}

#[test]
fn baseline_window_sizes() {
    assert_eq!(recent_window(0), 0);
    assert_eq!(recent_window(4), 0);
    assert_eq!(recent_window(5), 1);
    assert_eq!(recent_window(9), 3);
    assert_eq!(recent_window(15), 5);
    assert_eq!(recent_window(300), 5);
}

#[test]
fn learning_starts_with_one_weight_per_transition() {
    let net = make_8react_network();
    let learning: Learning<f64> = Learning::new(&net, 10.0, 1.0);
    assert_eq!(learning.weights(), &vec![1.0, 1.0, 10.0, 1.0, 10.0, 1.0, 1.0, 10.0]);
    assert!(learning.history().is_empty());
}

#[test]
fn recording_adds_one_entry_and_keeps_the_table() {
    let net = make_8react_network();
    let mut learning: Learning<f64> = Learning::new(&net, 10.0, 1.0);
    learning.record(0.0);
    learning.record(0.25);
    assert_eq!(learning.history(), &vec![0.0, 0.25]);
    assert_eq!(learning.weights().len(), 8);
    learning.set_weight(2, 10.0 + 0.001 * 2.0 * 3f64.powf(0.95));
    learning.set_weight(8, 5.0);
    assert_eq!(learning.weights().len(), 8);
    assert_eq!(learning.weights()[2], 10.0 + 0.001 * 2.0 * 3f64.powf(0.95));
    assert_eq!(learning.weights()[0], 1.0);
    assert_eq!(learning.history().len(), 2);
}
