use rand::rngs::StdRng;
use rand::{Rng, SeedableRng};
use rl_demo::model::Transition;
use rl_demo::network::{apply, enabled, make_8react_network, Network};
use rl_demo::sampler::{Step, StepError, Stop, Trace};

/// Picks by weight as the training loop does: walk the offered order,
/// accumulate normalised weights and stop where a fresh draw in [0, 0.9)
/// falls under the running sum.
fn pick(order: &[usize], weights: &[f64], rng: &mut StdRng) -> Option<usize> {
    let total: f64 = order.iter().map(|&j| weights[j]).sum();
    let mut cumulative = 0.0;
    for &j in order {
        cumulative += weights[j] / total;
        let draw: f64 = rng.random_range(0.0..0.9);
        if draw <= cumulative {
            return Some(j);
        }
    }
    None
}

fn initial_weights(net: &Network) -> Vec<f64> {
    net.transitions.iter().map(|t| if t.in_dep_graph { 10.0 } else { 1.0 }).collect()
}

fn run(net: &Network, seed: u64) -> (Trace, Option<Stop>) {
    let weights = initial_weights(net);
    let mut rng = StdRng::seed_from_u64(seed);
    let mut trace = Trace::start(net);
    for _ in 0..1_000_000 {
        match trace.next_step(net, &mut rng) {
            Step::Stop(stop) => return (trace, Some(stop)),
            Step::Choose(order) => match pick(&order, &weights, &mut rng) {
                Some(j) => trace.advance(net, j).unwrap(),
                None => return (trace, Some(Stop::Deadlock)),
            },
        }
    }
    (trace, None)
}

fn one(name: &str, increment: Vec<u64>, decrement: Vec<u64>) -> Transition {
    Transition { name: name.to_string(), increment, decrement, rate: 10, in_dep_graph: false }
}

#[test]
fn single_run_stops_at_target_with_legal_steps() {
    let net = make_8react_network();
    let (trace, stop) = run(&net, 11);
    let stop = stop.expect("the run ended");
    let mut state = net.initial_state.clone();
    for (k, &j) in trace.steps.iter().enumerate() {
        assert!(state[5] != 20, "no step after the target is met");
        assert!(enabled(&net.transitions[j], &state));
        let (num, den) = trace.ratios[k];
        assert!(num <= den);
        state = apply(&net.transitions[j], &state).unwrap();
    }
    assert_eq!(state, trace.state);
    match stop {
        Stop::TargetReached => assert_eq!(state[5], 20),
        Stop::Deadlock => {}
    }
}

#[test]
fn same_seed_same_trajectory() {
    let net = make_8react_network();
    let (a, stop_a) = run(&net, 5);
    let (b, stop_b) = run(&net, 5);
    assert_eq!(a.steps, b.steps);
    assert_eq!(a.ratios, b.ratios);
    assert_eq!(stop_a, stop_b);
}

#[test]
fn offers_each_enabled_transition_once() {
    let net = make_8react_network();
    let trace = Trace::start(&net);
    let mut rng = StdRng::seed_from_u64(1);
    match trace.next_step(&net, &mut rng) {
        Step::Choose(mut order) => {
            order.sort();
            assert_eq!(order, vec![0, 1, 2, 7]);
        }
        other => panic!("expected a choice, got {:?}", other),
    }
}

#[test]
fn stops_on_deadlock_and_on_target() {
    let mut rng = StdRng::seed_from_u64(1);
    let stuck = Network::new(vec![one("a", vec![1, 0], vec![0, 1])], vec![0, 0], vec![5, 0]).unwrap();
    assert_eq!(Trace::start(&stuck).next_step(&stuck, &mut rng), Step::Stop(Stop::Deadlock));
    let done = Network::new(vec![one("a", vec![1, 0], vec![0, 0])], vec![5, 0], vec![5, 0]).unwrap();
    assert_eq!(Trace::start(&done).next_step(&done, &mut rng), Step::Stop(Stop::TargetReached));
}

#[test]
fn advance_records_step_and_ratio() {
    let net = make_8react_network();
    let mut trace = Trace::start(&net);
    assert_eq!(trace.advance(&net, 2), Ok(()));
    assert_eq!(trace.steps, vec![2]);
    assert_eq!(trace.ratios, vec![(541680, 2259366)]);
    assert_eq!(trace.state, vec![49, 2, 1, 50, 0, 0, 0]);
}

#[test]
fn advance_refusals() {
    let net = make_8react_network();
    let mut trace = Trace::start(&net);
    assert_eq!(trace.advance(&net, 3), Err(StepError::NotEnabled));
    assert_eq!(trace.advance(&net, 8), Err(StepError::NotEnabled));
    assert!(trace.steps.is_empty());
    let done = Network::new(vec![one("a", vec![1, 0], vec![0, 0])], vec![5, 0], vec![5, 0]).unwrap();
    let mut t = Trace::start(&done);
    assert_eq!(t.advance(&done, 0), Err(StepError::Finished));
    let full = Network::new(vec![one("a", vec![1, 0], vec![0, 0])], vec![u64::MAX, 0], vec![0, 1]).unwrap();
    let mut t = Trace::start(&full);
    assert_eq!(t.advance(&full, 0), Err(StepError::Overflow));
    assert_eq!(t.state, vec![u64::MAX, 0]);
}

#[test]
fn offered_order_is_shuffled() {
    let net = make_8react_network();
    let trace = Trace::start(&net);
    let mut unsorted = 0;
    for seed in 0..20 {
        let mut rng = StdRng::seed_from_u64(seed);
        if let Step::Choose(order) = trace.next_step(&net, &mut rng) {
            if order != vec![0, 1, 2, 7] {
                unsorted += 1;
            }
        }
    }
    assert!(unsorted > 0);
}
