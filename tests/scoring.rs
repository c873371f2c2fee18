use rl_demo::network::make_8react_network;
use rl_demo::scoring::{scaled_rate, step_ratio};

#[test]
fn score_with_no_consumed_species_is_the_reference_rate() {
    assert_eq!(scaled_rate(38, 9999, &vec![0, 0, 0], &vec![5, 6, 7]), 38);
}

#[test]
fn score_blends_once_per_consumed_species() {
    // (0.042 + 50 + 0.042) / 2 = 25.042, then (0.042 + 2 + 25.042) / 2 = 13.542,
    // kept times 2^2 and in ten-thousandths.
    let r = scaled_rate(420, 420, &vec![1, 1, 0, 0, 0, 0, 0], &vec![50, 2, 0, 50, 0, 0, 0]);
    assert_eq!(r, 541680);
    assert_eq!(r as f64 / 4.0 / 10000.0, 13.542);
}

#[test]
fn score_blends_the_scored_rate_into_the_reference() {
    let r = scaled_rate(420, 32100, &vec![1, 1, 0, 0, 0, 0, 0], &vec![50, 2, 0, 50, 0, 0, 0]);
    assert_eq!(r, 636720);
}

#[test]
fn step_ratio_at_the_initial_state() {
    let net = make_8react_network();
    assert_eq!(step_ratio(&net, 2, &net.initial_state), (541680, 2259366));
    assert_eq!(step_ratio(&net, 0, &net.initial_state), (38, 152));
}
