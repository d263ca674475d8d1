//! The Elo update itself: expected scores, the single-match update, and the
//! rating-period fold.
//!
//! All quantities are fixed-point integers scaled by [`SCALE`] (millionths),
//! so the contracts are exact: the two expected scores of a pairing sum to
//! exactly one point of probability, one match moves the two ratings by
//! exactly opposite amounts, and swapping the players while inverting the
//! outcome swaps the two results, proved in [`lemma_elo_symmetry`].

use vstd::prelude::*;

verus! {

use vstd::arithmetic::div_mod::{
    lemma_div_is_ordered, lemma_div_multiples_vanish, lemma_div_of0, lemma_div_pos_is_pos,
};
use crate::config::EloConfig;
use crate::fixed::{
    lemma_weak_score_bounds, lemma_weak_score_zero, spec_weak_score, HALF_SCALE, RATING_LIMIT,
    SCALE,
};
use crate::outcomes::Outcomes;
use crate::rating::EloRating;

/// The expected scores of the two sides of a pairing, in [`SCALE`] units.
/// The weaker side gets the logistic value of the rating gap computed by
/// [`spec_weak_score`]; the stronger side gets the exact remainder to one,
/// so the pair always sums to [`SCALE`] and equal ratings split it evenly.
pub open spec fn spec_expected(r1: int, r2: int) -> (int, int) {
    let d = r2 - r1;
    if d >= 0 {
        let lo = spec_weak_score(d);
        (lo, SCALE as int - lo)
    } else {
        let lo = spec_weak_score(-d);
        (SCALE as int - lo, lo)
    }
}

/// Both expected scores lie between zero and one point, and they sum to
/// exactly one point.
pub proof fn lemma_expected_bounds(r1: int, r2: int)
    ensures
        0 <= spec_expected(r1, r2).0 <= SCALE,
        0 <= spec_expected(r1, r2).1 <= SCALE,
        spec_expected(r1, r2).0 + spec_expected(r1, r2).1 == SCALE,
{
    if r2 - r1 >= 0 {
        lemma_weak_score_bounds(r2 - r1);
    } else {
        lemma_weak_score_bounds(r1 - r2);
    }
}

/// Swapping the two players of a pairing swaps their expected scores.
pub proof fn lemma_expected_symmetry(r1: int, r2: int)
    ensures
        spec_expected(r1, r2).0 == spec_expected(r2, r1).1,
        spec_expected(r1, r2).1 == spec_expected(r2, r1).0,
{
    if r2 - r1 == 0 {
        lemma_weak_score_zero();
    }
}

/// Calculates the expected score of two players based on their elo rating.
/// Meant for usage in the elo function, but you can also use it to predict
/// games yourself.
///
/// A score of `SCALE` fixed-point units means certain win, a score of `0`
/// means certain loss, and `HALF_SCALE` is an even match. The two scores
/// always sum to exactly `SCALE`, and two equal ratings split it exactly
/// in half.
pub fn expected_score(player_one: EloRating, player_two: EloRating) -> (e: (i64, i64))
    requires
        player_one.valid(),
        player_two.valid(),
    ensures
        e.0 == spec_expected(player_one.rating as int, player_two.rating as int).0,
        e.1 == spec_expected(player_one.rating as int, player_two.rating as int).1,
        e.0 + e.1 == SCALE,
        0 <= e.0 <= SCALE,
        0 <= e.1 <= SCALE,
        player_one.rating == player_two.rating ==> e.0 == HALF_SCALE && e.1 == HALF_SCALE,
{
    proof {
        lemma_expected_bounds(player_one.rating as int, player_two.rating as int);
        if player_one.rating == player_two.rating {
            lemma_weak_score_zero();
        }
    }
    let d = player_two.rating - player_one.rating;
    if d >= 0 {
        let lo = crate::fixed::weak_score(d);
        (lo, SCALE - lo)
    } else {
        let lo = crate::fixed::weak_score(-d);
        (SCALE - lo, lo)
    }
}

/// The number of fixed-point units a match moves `player_one`'s rating:
/// the K-factor times the gap between observed and expected score, scaled
/// back down and truncated toward zero. `player_two` moves by the exact
/// opposite.
pub open spec fn spec_delta(k: int, observed: int, expected: int) -> int {
    if observed >= expected {
        (k * (observed - expected)) / (SCALE as int)
    } else {
        -((k * (expected - observed)) / (SCALE as int))
    }
}

/// The rating swing of one match never exceeds the K-factor.
pub proof fn lemma_delta_bounds(k: int, observed: int, expected: int)
    requires
        0 < k,
        0 <= observed <= SCALE,
        0 <= expected <= SCALE,
    ensures
        -k <= spec_delta(k, observed, expected) <= k,
{
    let s = SCALE as int;
    if observed >= expected {
        assert(0 <= k * (observed - expected) <= k * s) by (nonlinear_arith)
            requires
                0 < k,
                0 <= observed - expected <= s,
        ;
        lemma_div_pos_is_pos(k * (observed - expected), s);
        lemma_div_is_ordered(k * (observed - expected), k * s, s);
        lemma_div_multiples_vanish(k, s);
        assert(s * k == k * s) by (nonlinear_arith);
    } else {
        assert(0 <= k * (expected - observed) <= k * s) by (nonlinear_arith)
            requires
                0 < k,
                0 <= expected - observed <= s,
        ;
        lemma_div_pos_is_pos(k * (expected - observed), s);
        lemma_div_is_ordered(k * (expected - observed), k * s, s);
        lemma_div_multiples_vanish(k, s);
        assert(s * k == k * s) by (nonlinear_arith);
    }
}

/// The new ratings after one match: `player_one` moves by the delta of the
/// K-factor against the surprise of the outcome, `player_two` by its exact
/// opposite.
pub open spec fn spec_elo(r1: int, r2: int, outcome: Outcomes, k: int) -> (int, int) {
    let e1 = spec_expected(r1, r2).0;
    let d = spec_delta(k, outcome.spec_score(), e1);
    (r1 + d, r2 - d)
}

/// Swapping the players and inverting the outcome swaps the two new
/// ratings: a win of `a` over `b` is the same match as a loss of `b`
/// against `a`.
pub proof fn lemma_elo_symmetry(r1: int, r2: int, k: int)
    ensures
        spec_elo(r1, r2, Outcomes::WIN, k).0 == spec_elo(r2, r1, Outcomes::LOSS, k).1,
        spec_elo(r1, r2, Outcomes::WIN, k).1 == spec_elo(r2, r1, Outcomes::LOSS, k).0,
{
    lemma_expected_symmetry(r1, r2);
    lemma_expected_bounds(r1, r2);
    let s = SCALE as int;
    let e1 = spec_expected(r1, r2).0;
    assert(spec_expected(r2, r1).0 == s - e1);
    if e1 == s {
        assert(k * (0 - 0) == 0) by (nonlinear_arith);
        lemma_div_of0(s);
    }
}

/// The largest product the update can form before scaling back down:
/// the K-factor limit times one full point.
const K_PRODUCT_LIMIT: i64 = 1_000_000_000_000_000_000;

/// Calculates the elo scores of two players based on their ratings and the
/// outcome of the game.
///
/// The outcome of the match is in the perspective of `player_one`:
/// `Outcomes::WIN` is a win for `player_one` and `Outcomes::LOSS` is a win
/// for `player_two`.
///
/// The update is exactly zero-sum: what one rating gains the other loses,
/// and neither moves by more than the K-factor.
pub fn elo(
    player_one: EloRating,
    player_two: EloRating,
    outcome: Outcomes,
    config: &EloConfig,
) -> (r: (EloRating, EloRating))
    requires
        player_one.valid(),
        player_two.valid(),
        config.valid(),
    ensures
        r.0.rating == spec_elo(
            player_one.rating as int,
            player_two.rating as int,
            outcome,
            config.k as int,
        ).0,
        r.1.rating == spec_elo(
            player_one.rating as int,
            player_two.rating as int,
            outcome,
            config.k as int,
        ).1,
        r.0.rating - player_one.rating == -(r.1.rating - player_two.rating),
        player_one.rating - config.k <= r.0.rating <= player_one.rating + config.k,
        player_two.rating - config.k <= r.1.rating <= player_two.rating + config.k,
{
    let (e1, _e2) = expected_score(player_one, player_two);
    let o = outcome.score();
    proof {
        lemma_delta_bounds(config.k as int, o as int, e1 as int);
        if o >= e1 {
            assert(0 <= config.k as int * (o - e1) <= K_PRODUCT_LIMIT) by (nonlinear_arith)
                requires
                    0 < config.k <= crate::fixed::K_LIMIT,
                    0 <= o - e1 <= SCALE,
                    K_PRODUCT_LIMIT == crate::fixed::K_LIMIT as int * SCALE as int,
            ;
        } else {
            assert(0 <= config.k as int * (e1 - o) <= K_PRODUCT_LIMIT) by (nonlinear_arith)
                requires
                    0 < config.k <= crate::fixed::K_LIMIT,
                    0 <= e1 - o <= SCALE,
                    K_PRODUCT_LIMIT == crate::fixed::K_LIMIT as int * SCALE as int,
            ;
        }
    }
    let delta: i64 = if o >= e1 {
        (config.k * (o - e1)) / SCALE
    } else {
        -((config.k * (e1 - o)) / SCALE)
    };
    (
        EloRating { rating: player_one.rating + delta },
        EloRating { rating: player_two.rating - delta },
    )
}

/// The rating a player ends a period with: the Elo update folded over the
/// results in order, each against the opponent's original rating, keeping
/// only the player's side of each update.
pub open spec fn spec_rating_period(
    player: int,
    results: Seq<(EloRating, Outcomes)>,
    k: int,
) -> int
    decreases results.len(),
{
    if results.len() == 0 {
        player
    } else {
        let next = spec_elo(player, results[0].0.rating as int, results[0].1, k).0;
        spec_rating_period(next, results.skip(1), k)
    }
}

/// Calculates an Elo rating over a rating period: the player's rating
/// absorbs the listed results one after the other, in order, each against
/// the opponent's original rating, and the opponents' own updates are
/// discarded.
///
/// All of the outcomes are from the perspective of `player`. An empty
/// period returns the rating unchanged. The slack asked of `player`'s
/// rating leaves room for every match to move it by the full K-factor.
pub fn elo_rating_period(
    player: EloRating,
    results: &Vec<(EloRating, Outcomes)>,
    config: &EloConfig,
) -> (new_player: EloRating)
    requires
        config.valid(),
        forall|i: int| 0 <= i < results@.len() ==> (#[trigger] results@[i]).0.valid(),
        player.rating + results@.len() * config.k <= RATING_LIMIT,
        player.rating - results@.len() * config.k >= -RATING_LIMIT,
    ensures
        new_player.rating == spec_rating_period(
            player.rating as int,
            results@,
            config.k as int,
        ),
        results@.len() == 0 ==> new_player == player,
{
    let ghost full_period = spec_rating_period(player.rating as int, results@, config.k as int);
    proof {
        assert(results@.skip(0) =~= results@);
    }
    let mut current = player;
    let mut idx: usize = 0;
    while idx < results.len()
        invariant
            idx <= results@.len(),
            config.valid(),
            forall|i: int| 0 <= i < results@.len() ==> (#[trigger] results@[i]).0.valid(),
            current.rating + (results@.len() - idx) * config.k <= RATING_LIMIT,
            current.rating - (results@.len() - idx) * config.k >= -RATING_LIMIT,
            full_period == spec_rating_period(
                current.rating as int,
                results@.skip(idx as int),
                config.k as int,
            ),
        decreases results@.len() - idx,
    {
        proof {
            assert(1 * config.k <= (results@.len() - idx) * config.k) by (nonlinear_arith)
                requires
                    1 <= results@.len() - idx,
                    0 < config.k,
            ;
        }
        let (opponent, result) = results[idx];
        let (next, _) = elo(current, opponent, result, config);
        proof {
            let tail = results@.skip(idx as int);
            assert(tail[0] == results@[idx as int]);
            assert(tail.skip(1) =~= results@.skip(idx as int + 1));
            assert((results@.len() - (idx + 1)) * config.k == (results@.len() - idx) * config.k
                - 1 * config.k) by (nonlinear_arith);
        }
        current = next;
        idx += 1;
    }
    current
}

} // verus!
