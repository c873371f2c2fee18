use vstd::prelude::*;

use crate::model::{make_8react_transitions, Transition};

verus! {

/// The largest number of species that a network may have.
pub const MAX_SPECIES: usize = 32;

/// The largest number of transitions that a network may have.
pub const MAX_TRANSITIONS: usize = 4096;

/// Whether a transition with decrement vector `dec` may fire in `state`.
pub open spec fn enabled_spec(dec: Seq<u64>, state: Seq<u64>) -> bool {
    forall|i: int| 0 <= i < state.len() ==> #[trigger] dec[i] <= state[i]
}

/// Component `i` of the state that firing `t` in `state` leads to.
pub open spec fn applied_at(t: Transition, state: Seq<u64>, i: int) -> int {
    state[i] + t.increment@[i] - t.decrement@[i]
}

/// Whether firing `t` in `state` keeps every component within `u64`.
pub open spec fn apply_fits(t: Transition, state: Seq<u64>) -> bool {
    forall|i: int| 0 <= i < state.len() ==> #[trigger] applied_at(t, state, i) <= u64::MAX
}

/// The stop rule: some species with a nonzero target has reached its target.
pub open spec fn target_met(target: Seq<u64>, state: Seq<u64>) -> bool {
    exists|i: int| 0 <= i < target.len() && #[trigger] target[i] != 0 && state[i] == target[i]
}

/// A transition whose vectors both have `n` components.
pub open spec fn transition_has_dim(t: Transition, n: nat) -> bool {
    t.increment@.len() == n && t.decrement@.len() == n
}

/// The transitions, the initial state and the target of a reaction network.
pub struct Network {
    pub transitions: Vec<Transition>,
    pub initial_state: Vec<u64>,
    pub target_state: Vec<u64>,
}

/// Why a network description is refused.
#[derive(Debug, Clone, Copy, PartialEq, Eq, Structural)]
pub enum NetworkError {
    TooManySpecies,
    TooManyTransitions,
    DimensionMismatch,
}

impl Network {
    /// The number of species.
    pub open spec fn species(&self) -> nat {
        self.initial_state@.len()
    }

    /// The shape of a network: every vector has one component per species.
    pub open spec fn wf(&self) -> bool {
        &&& self.species() <= MAX_SPECIES
        &&& self.transitions@.len() <= MAX_TRANSITIONS
        &&& self.target_state@.len() == self.species()
        &&& forall|j: int|
            0 <= j < self.transitions@.len() ==> transition_has_dim(
                #[trigger] self.transitions@[j],
                self.species(),
            )
    }

    /// Builds a network, refusing vectors of the wrong length and sizes over the limits.
    pub fn new(transitions: Vec<Transition>, initial_state: Vec<u64>, target_state: Vec<u64>) -> (r:
        Result<Network, NetworkError>)
        ensures
            initial_state@.len() > MAX_SPECIES ==> r == Err::<Network, NetworkError>(
                NetworkError::TooManySpecies,
            ),
            initial_state@.len() <= MAX_SPECIES && transitions@.len() > MAX_TRANSITIONS ==> r
                == Err::<Network, NetworkError>(NetworkError::TooManyTransitions),
            initial_state@.len() <= MAX_SPECIES && transitions@.len() <= MAX_TRANSITIONS ==> (
            r is Err <==> r == Err::<Network, NetworkError>(NetworkError::DimensionMismatch)),
            r is Ok <==> (Network { transitions, initial_state, target_state }).wf(),
            r matches Ok(n) ==> n.transitions == transitions && n.initial_state == initial_state
                && n.target_state == target_state,
    {
        let n = initial_state.len();
        if n > MAX_SPECIES {
            return Err(NetworkError::TooManySpecies);
        }
        if transitions.len() > MAX_TRANSITIONS {
            return Err(NetworkError::TooManyTransitions);
        }
        if target_state.len() != n {
            return Err(NetworkError::DimensionMismatch);
        }
        let mut j: usize = 0;
        while j < transitions.len()
            invariant
                j <= transitions@.len(),
                n == initial_state@.len(),
                n <= MAX_SPECIES,
                transitions@.len() <= MAX_TRANSITIONS,
                target_state@.len() == n,
                forall|k: int| 0 <= k < j ==> transition_has_dim(#[trigger] transitions@[k], n as nat),
            decreases transitions@.len() - j,
        {
            if transitions[j].increment.len() != n || transitions[j].decrement.len() != n {
                return Err(NetworkError::DimensionMismatch);
            }
            j += 1;
        }
        Ok(Network { transitions, initial_state, target_state })
    }
}

/// The eight-reaction network, started from `[50, 2, 0, 50, 0, 0, 0]` and
/// stopped when the sixth species reaches 20.
pub fn make_8react_network() -> (r: Network)
    ensures
        r.wf(),
        r.transitions@.len() == 8,
        r.initial_state@ == seq![50u64, 2, 0, 50, 0, 0, 0],
        r.target_state@ == seq![0u64, 0, 0, 0, 0, 20, 0],
{
    let transitions = make_8react_transitions();
    let initial_state: Vec<u64> = vec![50, 2, 0, 50, 0, 0, 0];
    let target_state: Vec<u64> = vec![0, 0, 0, 0, 0, 20, 0];
    assert(initial_state@ =~= seq![50u64, 2, 0, 50, 0, 0, 0]);
    assert(target_state@ =~= seq![0u64, 0, 0, 0, 0, 20, 0]);
    Network { transitions, initial_state, target_state }
}

/// Whether `t` may fire in `state`: no decrement exceeds the count it takes from.
pub fn enabled(t: &Transition, state: &Vec<u64>) -> (r: bool)
    requires
        t.decrement@.len() == state@.len(),
    ensures
        r == enabled_spec(t.decrement@, state@),
{
    let mut i: usize = 0;
    while i < state.len()
        invariant
            i <= state@.len(),
            t.decrement@.len() == state@.len(),
            forall|k: int| 0 <= k < i ==> #[trigger] t.decrement@[k] <= state@[k],
        decreases state@.len() - i,
    {
        if t.decrement[i] > state[i] {
            return false;
        }
        i += 1;
    }
    true
}

/// Fires an enabled transition: each count gains its increment and loses its
/// decrement. Gives `None` exactly when a count would not fit in `u64`.
pub fn apply(t: &Transition, state: &Vec<u64>) -> (r: Option<Vec<u64>>)
    requires
        transition_has_dim(*t, state@.len()),
        enabled_spec(t.decrement@, state@),
    ensures
        r is None <==> !apply_fits(*t, state@),
        r matches Some(s) ==> s@.len() == state@.len() && forall|i: int|
            0 <= i < state@.len() ==> #[trigger] s@[i] == applied_at(*t, state@, i),
{
    let mut out: Vec<u64> = Vec::new();
    let mut i: usize = 0;
    while i < state.len()
        invariant
            i <= state@.len(),
            out@.len() == i,
            transition_has_dim(*t, state@.len()),
            enabled_spec(t.decrement@, state@),
            forall|k: int| 0 <= k < i ==> #[trigger] out@[k] == applied_at(*t, state@, k),
        decreases state@.len() - i,
    {
        assert(t.decrement@[i as int] <= state@[i as int]);
        let rest = state[i] - t.decrement[i];
        if rest > u64::MAX - t.increment[i] {
            assert(applied_at(*t, state@, i as int) > u64::MAX);
            return None;
        }
        out.push(rest + t.increment[i]);
        i += 1;
    }
    assert forall|k: int| 0 <= k < state@.len() implies #[trigger] applied_at(*t, state@, k)
        <= u64::MAX by {
        assert(out@[k] == applied_at(*t, state@, k));
    }
    Some(out)
}

/// Firing an enabled transition never drives a count below zero.
pub proof fn lemma_apply_nonnegative(t: Transition, state: Seq<u64>)
    requires
        transition_has_dim(t, state.len()),
        enabled_spec(t.decrement@, state),
    ensures
        forall|i: int| 0 <= i < state.len() ==> #[trigger] applied_at(t, state, i) >= 0,
{
    assert forall|i: int| 0 <= i < state.len() implies #[trigger] applied_at(t, state, i) >= 0 by {
        assert(t.decrement@[i] <= state[i]);
    }
}

/// The stop rule of the sampler, tested index by index.
pub fn target_reached(target: &Vec<u64>, state: &Vec<u64>) -> (r: bool)
    requires
        target@.len() == state@.len(),
    ensures
        r == target_met(target@, state@),
{
    let mut i: usize = 0;
    while i < target.len()
        invariant
            i <= target@.len(),
            target@.len() == state@.len(),
            forall|k: int| 0 <= k < i ==> !(#[trigger] target@[k] != 0 && state@[k] == target@[k]),
        decreases target@.len() - i,
    {
        if target[i] != 0 && state[i] == target[i] {
            return true;
        }
        i += 1;
    }
    false
}

/// Whether the `j`-th transition of `net` may fire in `state`.
pub open spec fn enabled_at(net: &Network, j: int, state: Seq<u64>) -> bool {
    enabled_spec(net.transitions@[j].decrement@, state)
}

/// The positions among the first `n` transitions of those that may fire in `state`.
pub open spec fn enabled_list(net: &Network, state: Seq<u64>, n: int) -> Seq<usize>
    decreases n,
{
    if n <= 0 {
        seq![]
    } else if enabled_at(net, n - 1, state) {
        enabled_list(net, state, n - 1).push((n - 1) as usize)
    } else {
        enabled_list(net, state, n - 1)
    }
}

/// The positions of the transitions that may fire in `state`, in network order.
pub fn enabled_indices(net: &Network, state: &Vec<u64>) -> (r: Vec<usize>)
    requires
        net.wf(),
        state@.len() == net.species(),
    ensures
        r@ == enabled_list(net, state@, net.transitions@.len() as int),
        forall|k: int|
            0 <= k < r@.len() ==> #[trigger] r@[k] < net.transitions@.len() && enabled_at(
                net,
                r@[k] as int,
                state@,
            ),
        forall|k1: int, k2: int| 0 <= k1 < k2 < r@.len() ==> r@[k1] < r@[k2],
        forall|j: int|
            0 <= j < net.transitions@.len() && enabled_at(net, j, state@) ==> r@.contains(
                j as usize,
            ),
{
    let mut out: Vec<usize> = Vec::new();
    let mut j: usize = 0;
    while j < net.transitions.len()
        invariant
            j <= net.transitions@.len(),
            net.wf(),
            state@.len() == net.species(),
            forall|k: int|
                0 <= k < out@.len() ==> #[trigger] out@[k] < j && enabled_at(
                    net,
                    out@[k] as int,
                    state@,
                ),
            forall|k1: int, k2: int| 0 <= k1 < k2 < out@.len() ==> out@[k1] < out@[k2],
            forall|i: int| 0 <= i < j && enabled_at(net, i, state@) ==> out@.contains(i as usize),
            out@ == enabled_list(net, state@, j as int),
        decreases net.transitions@.len() - j,
    {
        assert(transition_has_dim(net.transitions@[j as int], net.species()));
        let ghost before = out@;
        if enabled(&net.transitions[j], state) {
            out.push(j);
            assert(out@[out@.len() - 1] == j);
        }
        assert forall|i: int| 0 <= i < j + 1 && enabled_at(net, i, state@) implies out@.contains(
            i as usize,
        ) by {
            if i < j {
                assert(before.contains(i as usize));
                let k = choose|k: int| 0 <= k < before.len() && before[k] == i as usize;
                assert(out@[k] == i as usize);
            } else {
                assert(out@[out@.len() - 1] == j);
            }
        }
        j += 1;
    }
    out
}

} // verus!
