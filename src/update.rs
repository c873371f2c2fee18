//! The discrete inputs of the weight update that follows each trajectory.
use vstd::prelude::*;

use crate::network::Network;

verus! {

/// The fewest history entries for which a baseline is formed.
pub const MIN_HISTORY: usize = 5;

/// The most recent history entries that the baseline averages over, at most.
pub const MAX_WINDOW: usize = 5;

/// How many times `j` occurs in `s`.
pub open spec fn occurrences(s: Seq<usize>, j: usize) -> nat
    decreases s.len(),
{
    if s.len() == 0 {
        0
    } else {
        occurrences(s.drop_last(), j) + if s.last() == j {
            1nat
        } else {
            0nat
        }
    }
}

/// For each of the `n` transitions, how many times the trajectory `steps` took it.
pub fn occurrence_counts(steps: &Vec<usize>, n: usize) -> (r: Vec<usize>)
    requires
        forall|k: int| 0 <= k < steps@.len() ==> #[trigger] steps@[k] < n,
    ensures
        r@.len() == n,
        forall|j: int| 0 <= j < n ==> #[trigger] r@[j] == occurrences(steps@, j as usize),
{
    let mut counts: Vec<usize> = Vec::new();
    let mut j: usize = 0;
    while j < n
        invariant
            j <= n,
            counts@.len() == j,
            forall|k: int| 0 <= k < j ==> #[trigger] counts@[k] == 0,
        decreases n - j,
    {
        counts.push(0);
        j += 1;
    }
    let mut i: usize = 0;
    while i < steps.len()
        invariant
            i <= steps@.len(),
            counts@.len() == n,
            forall|k: int| 0 <= k < steps@.len() ==> #[trigger] steps@[k] < n,
            forall|j: int|
                0 <= j < n ==> #[trigger] counts@[j] == occurrences(steps@.take(i as int), j as usize),
            forall|j: int| 0 <= j < n ==> #[trigger] counts@[j] <= i,
        decreases steps@.len() - i,
    {
        let x = steps[i];
        assert(steps@.take(i + 1).drop_last() =~= steps@.take(i as int));
        let c = counts[x];
        counts.set(x, c + 1);
        i += 1;
    }
    assert(steps@.take(steps@.len() as int) =~= steps@);
    counts
}

/// How many of the latest history entries the baseline averages over: none
/// while the history is short, else a third of it, at most `MAX_WINDOW`.
pub fn recent_window(history_len: usize) -> (r: usize)
    ensures
        history_len < MIN_HISTORY ==> r == 0,
        history_len >= MIN_HISTORY ==> r == if history_len / 3 < MAX_WINDOW {
            history_len / 3
        } else {
            MAX_WINDOW
        },
        r <= history_len,
{
    if history_len < MIN_HISTORY {
        0
    } else if history_len / 3 < MAX_WINDOW {
        history_len / 3
    } else {
        MAX_WINDOW
    }
}

/// The learning state of a run: one weight per transition, in network order,
/// and the probability of each completed trajectory. The weight type is left
/// to the caller; this type fixes the shape: the table is never resized and
/// the history only grows, by one entry per completed trajectory.
pub struct Learning<W> {
    weights: Vec<W>,
    history: Vec<W>,
}

impl<W> Learning<W> {
    pub closed spec fn weights_view(&self) -> Seq<W> {
        self.weights@
    }

    pub closed spec fn history_view(&self) -> Seq<W> {
        self.history@
    }

    /// One weight per transition of `net`, taken from `for_flagged` for the
    /// transitions marked as in the dependency set and from `for_others` for
    /// the rest, and an empty history.
    pub fn new(net: &Network, for_flagged: W, for_others: W) -> (r: Learning<W>)
        where
            W: Copy,
        ensures
            r.weights_view().len() == net.transitions@.len(),
            forall|j: int|
                0 <= j < net.transitions@.len() ==> #[trigger] r.weights_view()[j] == if net.transitions@[j].in_dep_graph {
                    for_flagged
                } else {
                    for_others
                },
            r.history_view().len() == 0,
    {
        let mut weights: Vec<W> = Vec::new();
        let mut j: usize = 0;
        while j < net.transitions.len()
            invariant
                j <= net.transitions@.len(),
                weights@.len() == j,
                forall|k: int|
                    0 <= k < j ==> #[trigger] weights@[k] == if net.transitions@[k].in_dep_graph {
                        for_flagged
                    } else {
                        for_others
                    },
            decreases net.transitions@.len() - j,
        {
            if net.transitions[j].in_dep_graph {
                weights.push(for_flagged);
            } else {
                weights.push(for_others);
            }
            j += 1;
        }
        Learning { weights, history: Vec::new() }
    }

    /// The weights, in network order.
    pub fn weights(&self) -> (r: &Vec<W>)
        ensures
            r@ == self.weights_view(),
    {
        &self.weights
    }

    /// The probabilities recorded so far, oldest first.
    pub fn history(&self) -> (r: &Vec<W>)
        ensures
            r@ == self.history_view(),
    {
        &self.history
    }

    /// Replaces the weight at position `j`; a position past the end changes nothing.
    pub fn set_weight(&mut self, j: usize, w: W)
        ensures
            j < old(self).weights_view().len() ==> final(self).weights_view() == old(
                self,
            ).weights_view().update(j as int, w),
            j >= old(self).weights_view().len() ==> final(self).weights_view() == old(
                self,
            ).weights_view(),
            final(self).history_view() == old(self).history_view(),
    {
        if j < self.weights.len() {
            self.weights.set(j, w);
        }
    }

    /// Records the probability of a completed trajectory.
    pub fn record(&mut self, probability: W)
        ensures
            final(self).history_view() == old(self).history_view().push(probability),
            final(self).weights_view() == old(self).weights_view(),
    {
        self.history.push(probability);
    }
}

} // verus!
