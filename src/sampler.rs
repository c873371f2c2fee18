//! Step-by-step construction of one trajectory.
//!
//! A `Trace` holds the running state and the transitions taken so far. At each
//! step `next_step` applies the stop rule, gathers the enabled transitions and
//! puts them in a random order; the caller picks one of them by weight and
//! hands it to `advance`, which checks it, records its exact probability
//! factor and fires it.
use rand::rngs::StdRng;
use rand::seq::SliceRandom;
use vstd::prelude::*;

use crate::model::Transition;
use crate::network::{
    applied_at,
    apply,
    apply_fits,
    enabled,
    enabled_at,
    enabled_indices,
    enabled_list,
    target_met,
    target_reached,
    transition_has_dim,
    Network,
};
use crate::scoring::{score, step_ratio, total_score};

verus! {

#[verifier::external_type_specification]
#[verifier::external_body]
pub struct ExStdRng(StdRng);

/// Relies on rand's `SliceRandom::shuffle`, which only swaps elements in place:
/// the result is a permutation of the input.
#[verifier::external_body]
fn shuffle_positions(v: &mut Vec<usize>, rng: &mut StdRng)
    ensures
        final(v)@.len() == old(v)@.len(),
        final(v)@.to_multiset() == old(v)@.to_multiset(),
{
    v.shuffle(rng);
}

/// The state that firing `t` in `s` leads to.
pub open spec fn applied_state(t: Transition, s: Seq<u64>) -> Seq<u64> {
    Seq::new(s.len(), |i: int| applied_at(t, s, i) as u64)
}

/// The state reached from the initial state by firing `steps` in order.
pub open spec fn state_after(net: &Network, steps: Seq<usize>) -> Seq<u64>
    decreases steps.len(),
{
    if steps.len() == 0 {
        net.initial_state@
    } else {
        applied_state(net.transitions@[steps.last() as int], state_after(net, steps.drop_last()))
    }
}

/// Every step names a transition that was enabled, in a state where the
/// stop rule had not fired.
pub open spec fn legal_steps(net: &Network, steps: Seq<usize>) -> bool {
    forall|k: int|
        0 <= k < steps.len() ==> {
            &&& #[trigger] steps[k] < net.transitions@.len()
            &&& enabled_at(net, steps[k] as int, state_after(net, steps.take(k)))
            &&& !target_met(net.target_state@, state_after(net, steps.take(k)))
        }
}

/// The exact probability factor of firing `j` in `state`.
pub open spec fn ratio_spec(net: &Network, j: int, state: Seq<u64>) -> (nat, nat) {
    (score(net, j, j, state), total_score(net, j, state, net.transitions@.len() as int))
}

/// A recorded ratio, read as a pair of naturals.
pub open spec fn ratio_view(p: (u128, u128)) -> (nat, nat) {
    (p.0 as nat, p.1 as nat)
}

proof fn lemma_permutation_keeps(v: Seq<usize>, e: Seq<usize>)
    requires
        v.to_multiset() == e.to_multiset(),
        forall|k1: int, k2: int| 0 <= k1 < k2 < e.len() ==> e[k1] < e[k2],
    ensures
        v.no_duplicates(),
        forall|x: usize| v.contains(x) <==> e.contains(x),
{
    v.to_multiset_ensures();
    e.to_multiset_ensures();
    assert(e.no_duplicates()) by {
        assert forall|i: int, j: int| 0 <= i < e.len() && 0 <= j < e.len() && i != j implies e[i]
            != e[j] by {
            if i < j {
                assert(e[i] < e[j]);
            } else {
                assert(e[j] < e[i]);
            }
        }
    }
    e.lemma_multiset_has_no_duplicates();
    assert forall|x: usize| v.contains(x) <==> e.contains(x) by {
        assert(v.contains(x) <==> v.to_multiset().count(x) > 0);
        assert(e.contains(x) <==> e.to_multiset().count(x) > 0);
    }
    assert forall|x: usize| v.to_multiset().contains(x) implies v.to_multiset().count(x) == 1 by {
        assert(e.to_multiset().contains(x));
    }
    v.lemma_multiset_has_no_duplicates_conv();
}

/// Why a run ended.
#[derive(Debug, Clone, Copy, PartialEq, Eq, Structural)]
pub enum Stop {
    /// A species with a nonzero target has reached it.
    TargetReached,
    /// No transition may fire.
    Deadlock,
}

/// What the run asks for next.
#[derive(Debug, Clone, PartialEq, Eq)]
pub enum Step {
    Stop(Stop),
    /// The enabled transitions, in random order: the caller picks one.
    Choose(Vec<usize>),
}

/// Why a transition handed to `advance` was refused.
#[derive(Debug, Clone, Copy, PartialEq, Eq, Structural)]
pub enum StepError {
    /// The stop rule has fired: the run is over.
    Finished,
    /// The position names no transition, or one that may not fire.
    NotEnabled,
    /// A species count would not fit in `u64`.
    Overflow,
}

/// One trajectory in the making.
pub struct Trace {
    /// The current species counts.
    pub state: Vec<u64>,
    /// The positions of the transitions taken, in order.
    pub steps: Vec<usize>,
    /// For each step, its probability factor as an exact ratio.
    pub ratios: Vec<(u128, u128)>,
}

impl Trace {
    pub open spec fn wf(&self, net: &Network) -> bool {
        &&& self.state@.len() == net.species()
        &&& self.state@ == state_after(net, self.steps@)
        &&& legal_steps(net, self.steps@)
        &&& self.ratios@.len() == self.steps@.len()
        &&& forall|k: int|
            0 <= k < self.steps@.len() ==> ratio_view(#[trigger] self.ratios@[k]) == ratio_spec(
                net,
                self.steps@[k] as int,
                state_after(net, self.steps@.take(k)),
            )
    }

    /// An empty trajectory at the network's initial state.
    pub fn start(net: &Network) -> (r: Trace)
        requires
            net.wf(),
        ensures
            r.wf(net),
            r.steps@.len() == 0,
            r.state@ == net.initial_state@,
    {
        Trace { state: net.initial_state.clone(), steps: Vec::new(), ratios: Vec::new() }
    }

    /// Applies the stop rule, then offers the enabled transitions in random order.
    pub fn next_step(&self, net: &Network, rng: &mut StdRng) -> (r: Step)
        requires
            net.wf(),
            self.wf(net),
        ensures
            r == Step::Stop(Stop::TargetReached) <==> target_met(
                net.target_state@,
                self.state@,
            ),
            r == Step::Stop(Stop::Deadlock) <==> !target_met(net.target_state@, self.state@)
                && enabled_list(net, self.state@, net.transitions@.len() as int).len() == 0,
            r matches Step::Choose(v) ==> v@.len() > 0 && v@.to_multiset() == enabled_list(
                net,
                self.state@,
                net.transitions@.len() as int,
            ).to_multiset(),
            r matches Step::Choose(v) ==> v@.no_duplicates() && (forall|k: int|
                0 <= k < v@.len() ==> #[trigger] v@[k] < net.transitions@.len() && enabled_at(
                    net,
                    v@[k] as int,
                    self.state@,
                )) && (forall|j: int|
                0 <= j < net.transitions@.len() && enabled_at(net, j, self.state@) ==> v@.contains(
                    j as usize,
                )),
    {
        if target_reached(&net.target_state, &self.state) {
            return Step::Stop(Stop::TargetReached);
        }
        let mut order = enabled_indices(net, &self.state);
        if order.len() == 0 {
            return Step::Stop(Stop::Deadlock);
        }
        let ghost sorted = order@;
        shuffle_positions(&mut order, rng);
        proof {
            lemma_permutation_keeps(order@, sorted);
            assert forall|k: int| 0 <= k < order@.len() implies #[trigger] order@[k]
                < net.transitions@.len() && enabled_at(net, order@[k] as int, self.state@) by {
                assert(order@.contains(order@[k]));
                assert(sorted.contains(order@[k]));
                let i = choose|i: int| 0 <= i < sorted.len() && sorted[i] == order@[k];
                assert(sorted[i] < net.transitions@.len());
            }
        }
        Step::Choose(order)
    }

    /// Fires the transition at position `j`, recording its probability factor.
    pub fn advance(&mut self, net: &Network, j: usize) -> (r: Result<(), StepError>)
        requires
            net.wf(),
            old(self).wf(net),
        ensures
            final(self).wf(net),
            target_met(net.target_state@, old(self).state@) ==> r == Err::<(), StepError>(
                StepError::Finished,
            ),
            !target_met(net.target_state@, old(self).state@) && !(j < net.transitions@.len()
                && enabled_at(net, j as int, old(self).state@)) ==> r == Err::<(), StepError>(
                StepError::NotEnabled,
            ),
            !target_met(net.target_state@, old(self).state@) && j < net.transitions@.len()
                && enabled_at(net, j as int, old(self).state@) ==> (r is Ok <==> apply_fits(
                net.transitions@[j as int],
                old(self).state@,
            )) && (r is Err ==> r == Err::<(), StepError>(StepError::Overflow)),
            r is Ok ==> final(self).steps@ == old(self).steps@.push(j),
            r is Ok ==> final(self).state@ == applied_state(net.transitions@[j as int], old(self).state@),
            r is Ok ==> final(self).ratios@.drop_last() == old(self).ratios@,
            r is Ok ==> final(self).ratios@.len() == old(self).ratios@.len() + 1 && ratio_view(
                final(self).ratios@.last(),
            ) == ratio_spec(net, j as int, old(self).state@),
            r is Err ==> *final(self) == *old(self),
    {
        if target_reached(&net.target_state, &self.state) {
            return Err(StepError::Finished);
        }
        if j >= net.transitions.len() {
            return Err(StepError::NotEnabled);
        }
        let t = &net.transitions[j];
        assert(transition_has_dim(net.transitions@[j as int], net.species()));
        if !enabled(t, &self.state) {
            return Err(StepError::NotEnabled);
        }
        let next = match apply(t, &self.state) {
            Some(s) => s,
            None => {
                return Err(StepError::Overflow);
            },
        };
        let ratio = step_ratio(net, j, &self.state);
        let ghost old_steps = self.steps@;
        let ghost old_state = self.state@;
        let ghost old_ratios = self.ratios@;
        self.steps.push(j);
        self.ratios.push(ratio);
        self.state = next;
        proof {
            assert(self.steps@.drop_last() =~= old_steps);
            assert(self.steps@.take(old_steps.len() as int) =~= old_steps);
            assert(self.state@ =~= applied_state(net.transitions@[j as int], old_state));
            assert forall|k: int| 0 <= k < old_steps.len() implies #[trigger] self.steps@.take(k)
                =~= old_steps.take(k) by {}
            assert forall|k: int| 0 <= k < self.steps@.len() implies {
                &&& #[trigger] self.steps@[k] < net.transitions@.len()
                &&& enabled_at(net, self.steps@[k] as int, state_after(net, self.steps@.take(k)))
                &&& !target_met(net.target_state@, state_after(net, self.steps@.take(k)))
            } by {
                if k < old_steps.len() {
                    assert(self.steps@.take(k) =~= old_steps.take(k));
                    assert(old_steps[k] == self.steps@[k]);
                }
            }
            assert(self.ratios@.drop_last() =~= old_ratios);
            assert forall|k: int| 0 <= k < self.steps@.len() implies ratio_view(
                #[trigger] self.ratios@[k],
            ) == ratio_spec(net, self.steps@[k] as int, state_after(net, self.steps@.take(k))) by {
                if k < old_steps.len() {
                    assert(self.steps@.take(k) =~= old_steps.take(k));
                    assert(old_ratios[k] == self.ratios@[k]);
                }
            }
        }
        Ok(())
    }
}

} // verus!
