//! The per-step rate score, computed exactly.
//!
//! Starting from the base rate of a reference transition, the score blends in
//! the base rate of a scored transition and the species count, once for each
//! species that the reference transition consumes: `r := (rate + count + r) / 2`.
//! Each blend halves the value, so the score is kept multiplied by `2^a`, where
//! `a` is the number of blends so far, and stays an integer.
use vstd::arithmetic::power2::{
    lemma2_to64,
    lemma_pow2_strictly_increases,
    lemma_pow2_unfold,
    pow2,
};
use vstd::prelude::*;

use crate::model::RATE_SCALE;
use crate::network::{enabled, enabled_at, transition_has_dim, Network, MAX_SPECIES, MAX_TRANSITIONS};

verus! {

/// An upper bound on `rate + RATE_SCALE * count` for `u64` rates and counts.
pub const UNIT_BOUND: u128 = 0x4000_0000_0000_0000_0000;

/// An upper bound on any score of a network within the size limits.
pub const SCORE_BOUND: u128 = 0x4000_0000_0000_0000_0000_0000_0000;

/// The number of species among the first `k` that `dec` consumes.
pub open spec fn active_count(dec: Seq<u64>, k: int) -> nat
    decreases k,
{
    if k <= 0 {
        0
    } else {
        active_count(dec, k - 1) + if dec[k - 1] > 0 {
            1nat
        } else {
            0nat
        }
    }
}

/// The blended rate after the first `k` species, multiplied by
/// `2^active_count(dec, k)`, in units of `1 / RATE_SCALE`.
pub open spec fn scaled_score(
    ref_rate: nat,
    scored_rate: nat,
    dec: Seq<u64>,
    state: Seq<u64>,
    k: int,
) -> nat
    decreases k,
{
    if k <= 0 {
        ref_rate
    } else {
        scaled_score(ref_rate, scored_rate, dec, state, k - 1) + if dec[k - 1] > 0 {
            (pow2(active_count(dec, k - 1)) * (scored_rate + RATE_SCALE * state[k - 1])) as nat
        } else {
            0nat
        }
    }
}

/// The score of transition `scored` against the reference transition `chosen`.
pub open spec fn score(net: &Network, chosen: int, scored: int, state: Seq<u64>) -> nat {
    scaled_score(
        net.transitions@[chosen].rate as nat,
        net.transitions@[scored].rate as nat,
        net.transitions@[chosen].decrement@,
        state,
        state.len() as int,
    )
}

/// The sum of the scores against `chosen` of the enabled transitions among the first `n`.
pub open spec fn total_score(net: &Network, chosen: int, state: Seq<u64>, n: int) -> nat
    decreases n,
{
    if n <= 0 {
        0
    } else {
        total_score(net, chosen, state, n - 1) + if enabled_at(net, n - 1, state) {
            score(net, chosen, n - 1, state)
        } else {
            0nat
        }
    }
}

proof fn lemma_pow2_le(a: nat, b: nat)
    requires
        a <= b,
    ensures
        pow2(a) <= pow2(b),
{
    if a < b {
        lemma_pow2_strictly_increases(a, b);
    }
}

proof fn lemma_score_bound(ref_rate: u64, scored_rate: u64, dec: Seq<u64>, state: Seq<u64>, k: int)
    requires
        0 <= k <= state.len(),
        dec.len() == state.len(),
    ensures
        active_count(dec, k) <= k,
        scaled_score(ref_rate as nat, scored_rate as nat, dec, state, k) <= pow2(
            active_count(dec, k),
        ) * UNIT_BOUND,
    decreases k,
{
    if k <= 0 {
        lemma2_to64();
    } else {
        lemma_score_bound(ref_rate, scored_rate, dec, state, k - 1);
        let a = active_count(dec, k - 1);
        let x = scaled_score(ref_rate as nat, scored_rate as nat, dec, state, k - 1);
        if dec[k - 1] > 0 {
            let s: int = scored_rate + RATE_SCALE * state[k - 1];
            let p = pow2(a);
            lemma_pow2_unfold(a + 1);
            assert(s <= UNIT_BOUND);
            assert(p * s <= p * UNIT_BOUND) by (nonlinear_arith)
                requires
                    s <= UNIT_BOUND,
            ;
            assert(x + p * s <= 2 * p * UNIT_BOUND) by (nonlinear_arith)
                requires
                    x <= p * UNIT_BOUND,
                    p * s <= p * UNIT_BOUND,
            ;
        }
    }
}

/// The score of `scored_rate` against `ref_rate` over the species that `dec`
/// consumes, multiplied by `2^a` for `a` such species.
pub fn scaled_rate(ref_rate: u64, scored_rate: u64, dec: &Vec<u64>, state: &Vec<u64>) -> (r: u128)
    requires
        dec@.len() == state@.len(),
        state@.len() <= MAX_SPECIES,
    ensures
        r == scaled_score(ref_rate as nat, scored_rate as nat, dec@, state@, state@.len() as int),
        r <= SCORE_BOUND,
{
    let mut x: u128 = ref_rate as u128;
    let mut p: u128 = 1;
    let mut i: usize = 0;
    proof {
        lemma2_to64();
    }
    while i < state.len()
        invariant
            i <= state@.len(),
            dec@.len() == state@.len(),
            state@.len() <= MAX_SPECIES,
            x == scaled_score(ref_rate as nat, scored_rate as nat, dec@, state@, i as int),
            p == pow2(active_count(dec@, i as int)),
            active_count(dec@, i as int) <= i,
            x <= pow2(active_count(dec@, i as int)) * UNIT_BOUND,
        decreases state@.len() - i,
    {
        if dec[i] > 0 {
            let s: u128 = scored_rate as u128 + 10000u128 * (state[i] as u128);
            proof {
                lemma2_to64();
                lemma_pow2_le(active_count(dec@, i as int), 31);
                lemma_pow2_unfold(active_count(dec@, i as int) + 1);
            }
            assert(p * s <= 0x8000_0000 * UNIT_BOUND) by (nonlinear_arith)
                requires
                    p <= 0x8000_0000,
                    s <= UNIT_BOUND,
            ;
            assert(x <= 0x8000_0000 * UNIT_BOUND) by (nonlinear_arith)
                requires
                    x <= p * UNIT_BOUND,
                    p <= 0x8000_0000,
            ;
            x = x + p * s;
            p = p * 2;
        }
        i += 1;
        proof {
            lemma_score_bound(ref_rate, scored_rate, dec@, state@, i as int);
        }
    }
    proof {
        lemma_score_bound(ref_rate, scored_rate, dec@, state@, state@.len() as int);
        lemma2_to64();
        lemma_pow2_le(active_count(dec@, state@.len() as int), 32);
        assert(x <= 0x1_0000_0000 * UNIT_BOUND) by (nonlinear_arith)
            requires
                x <= pow2(active_count(dec@, state@.len() as int)) * UNIT_BOUND,
                pow2(active_count(dec@, state@.len() as int)) <= 0x1_0000_0000,
        ;
    }
    x
}

proof fn lemma_total_covers(net: &Network, chosen: int, state: Seq<u64>, n: int)
    requires
        0 <= chosen < n,
        enabled_at(net, chosen, state),
    ensures
        score(net, chosen, chosen, state) <= total_score(net, chosen, state, n),
    decreases n,
{
    if chosen < n - 1 {
        lemma_total_covers(net, chosen, state, n - 1);
    }
}

/// The probability factor of firing `chosen` in `state`, as an exact ratio
/// `(score of chosen, sum of the scores of the enabled transitions)`, both
/// taken against `chosen`.
pub fn step_ratio(net: &Network, chosen: usize, state: &Vec<u64>) -> (r: (u128, u128))
    requires
        net.wf(),
        state@.len() == net.species(),
        chosen < net.transitions@.len(),
        enabled_at(net, chosen as int, state@),
    ensures
        r.0 == score(net, chosen as int, chosen as int, state@),
        r.1 == total_score(net, chosen as int, state@, net.transitions@.len() as int),
        r.0 <= r.1,
{
    let reference = &net.transitions[chosen];
    assert(transition_has_dim(net.transitions@[chosen as int], net.species()));
    let num = scaled_rate(reference.rate, reference.rate, &reference.decrement, state);
    let mut den: u128 = 0;
    let mut j: usize = 0;
    while j < net.transitions.len()
        invariant
            j <= net.transitions@.len(),
            net.wf(),
            state@.len() == net.species(),
            chosen < net.transitions@.len(),
            reference == &net.transitions@[chosen as int],
            reference.decrement@.len() == state@.len(),
            den == total_score(net, chosen as int, state@, j as int),
            den <= j * SCORE_BOUND,
        decreases net.transitions@.len() - j,
    {
        let t = &net.transitions[j];
        assert(transition_has_dim(net.transitions@[j as int], net.species()));
        if enabled(t, state) {
            let s = scaled_rate(reference.rate, t.rate, &reference.decrement, state);
            assert(den + s <= (j + 1) * SCORE_BOUND) by (nonlinear_arith)
                requires
                    den <= j * SCORE_BOUND,
                    s <= SCORE_BOUND,
            ;
            assert((j + 1) * SCORE_BOUND <= MAX_TRANSITIONS * SCORE_BOUND) by (nonlinear_arith)
                requires
                    j + 1 <= MAX_TRANSITIONS,
            ;
            den = den + s;
        } else {
            assert(den <= (j + 1) * SCORE_BOUND) by (nonlinear_arith)
                requires
                    den <= j * SCORE_BOUND,
            ;
        }
        j += 1;
    }
    proof {
        lemma_total_covers(net, chosen as int, state@, net.transitions@.len() as int);
    }
    (num, den)
}

} // verus!
