//! What a settlement hands out in relation to what was paid in: the payouts
//! of a bet never exceed its total pool, and fall short of it only by the
//! coins lost to rounding, less than one per winner.
//!
//! The second half holds where somebody wagered on the winning side. A bet
//! that is resolved for a side on which nobody wagered pays nobody, and its
//! whole pool stays where it is.

use vstd::prelude::*;
use vstd::arithmetic::div_mod::lemma_fundamental_div_mod;
use vstd::arithmetic::mul::{
    lemma_mul_is_commutative, lemma_mul_is_distributive_add, lemma_mul_nonnegative,
};
use crate::domain::models::{Bet, Side, Wager};
use crate::domain::parimutuel::{
    amounts_non_negative, backers, contribution, lemma_backers_distinct, lemma_share_bounds,
    lemma_stake_within_total, lemma_stranger_has_no_stake, payout_share, payouts_of, settleable,
    side_total, stake_of, winning_side,
};

verus! {

/// The sum of the payouts in a list of `(user, payout)` pairs.
pub open spec fn payout_sum(payouts: Seq<(u128, i64)>) -> int
    decreases payouts.len(),
{
    if payouts.len() == 0 {
        0
    } else {
        payout_sum(payouts.drop_last()) + payouts.last().1
    }
}

/// The sum of the stakes on `side` of the listed users.
spec fn stakes_sum(users: Seq<u128>, wagers: Seq<Wager>, side: Side) -> int
    decreases users.len(),
{
    if users.len() == 0 {
        0
    } else {
        stakes_sum(users.drop_last(), wagers, side) + stake_of(wagers, side, users.last())
    }
}

/// The sum of the shares of the listed users.
spec fn shares_sum(
    users: Seq<u128>,
    wagers: Seq<Wager>,
    side: Side,
    winning_pool: int,
    total_pool: int,
) -> int
    decreases users.len(),
{
    if users.len() == 0 {
        0
    } else {
        shares_sum(users.drop_last(), wagers, side, winning_pool, total_pool) + payout_share(
            stake_of(wagers, side, users.last()),
            winning_pool,
            total_pool,
        )
    }
}

/// One more wager raises the stakes of a duplicate-free list of users by
/// its amount if it is on `side` and its user is listed, and by nothing
/// otherwise.
proof fn lemma_stakes_sum_step(users: Seq<u128>, wagers: Seq<Wager>, side: Side)
    requires
        wagers.len() > 0,
        users.no_duplicates(),
    ensures
        stakes_sum(users, wagers, side) == stakes_sum(users, wagers.drop_last(), side) + (if users.contains(
            wagers.last().user_id,
        ) {
            contribution(wagers.last(), side, wagers.last().user_id)
        } else {
            0
        }),
    decreases users.len(),
{
    if users.len() > 0 {
        let rest = users.drop_last();
        let u = users.last();
        let w = wagers.last();
        assert(rest.no_duplicates()) by {
            assert forall|i: int, j: int| 0 <= i < rest.len() && 0 <= j < rest.len() && i != j implies rest[i]
                != rest[j] by {
                assert(rest[i] == users[i] && rest[j] == users[j]);
            }
        }
        lemma_stakes_sum_step(rest, wagers, side);
        if rest.contains(w.user_id) {
            let i = choose|i: int| 0 <= i < rest.len() && rest[i] == w.user_id;
            assert(users[i] == w.user_id);
            assert(users[users.len() - 1] == u);
            assert(u != w.user_id);
            assert(users.contains(w.user_id));
        } else if u == w.user_id {
            assert(users[users.len() - 1] == w.user_id);
            assert(users.contains(w.user_id));
        } else {
            if users.contains(w.user_id) {
                let i = choose|i: int| 0 <= i < users.len() && users[i] == w.user_id;
                assert(rest[i] == w.user_id);
            }
        }
    }
}

/// The stakes of the backers of a side add up to the side's total.
proof fn lemma_backers_hold_total(wagers: Seq<Wager>, side: Side)
    ensures
        stakes_sum(backers(wagers, side), wagers, side) == side_total(wagers, side),
    decreases wagers.len(),
{
    if wagers.len() > 0 {
        let init = wagers.drop_last();
        let w = wagers.last();
        let earlier = backers(init, side);
        lemma_backers_hold_total(init, side);
        lemma_backers_distinct(init, side);
        lemma_stakes_sum_step(earlier, wagers, side);
        if w.side == side && !earlier.contains(w.user_id) {
            lemma_stranger_has_no_stake(init, side, w.user_id);
            assert(earlier.push(w.user_id).drop_last() =~= earlier);
        }
    }
}

/// What the first `n` shares hand out, times the winning pool, stays within
/// the total pool times the stakes, and falls short of it by less than the
/// winning pool per share.
proof fn lemma_shares_track_stakes(
    users: Seq<u128>,
    wagers: Seq<Wager>,
    side: Side,
    winning_pool: int,
    total_pool: int,
)
    requires
        amounts_non_negative(wagers),
        winning_pool > 0,
        total_pool >= 0,
    ensures
        0 <= shares_sum(users, wagers, side, winning_pool, total_pool),
        winning_pool * shares_sum(users, wagers, side, winning_pool, total_pool) <= total_pool
            * stakes_sum(users, wagers, side),
        total_pool * stakes_sum(users, wagers, side) - winning_pool * shares_sum(
            users,
            wagers,
            side,
            winning_pool,
            total_pool,
        ) <= users.len() * (winning_pool - 1),
    decreases users.len(),
{
    if users.len() > 0 {
        let rest = users.drop_last();
        let stake = stake_of(wagers, side, users.last());
        let part = payout_share(stake, winning_pool, total_pool);
        let shares = shares_sum(rest, wagers, side, winning_pool, total_pool);
        let stakes = stakes_sum(rest, wagers, side);
        lemma_shares_track_stakes(rest, wagers, side, winning_pool, total_pool);
        lemma_stake_within_total(wagers, side, users.last());
        lemma_mul_nonnegative(stake, total_pool);
        lemma_fundamental_div_mod(stake * total_pool, winning_pool);
        lemma_mul_is_commutative(stake, total_pool);
        lemma_mul_is_distributive_add(winning_pool, shares, part);
        lemma_mul_is_distributive_add(total_pool, stakes, stake);
        assert(0 <= (stake * total_pool) % winning_pool < winning_pool);
        assert(part >= 0) by (nonlinear_arith)
            requires
                part == (stake * total_pool) / winning_pool,
                stake * total_pool >= 0,
                winning_pool > 0,
        ;
        assert((rest.len() + 1) * (winning_pool - 1) == rest.len() * (winning_pool - 1) + (winning_pool
            - 1)) by (nonlinear_arith);
    }
}

/// The payouts of a bet are the shares of the backers of its winning side.
proof fn lemma_payouts_are_shares(bet: Bet, wagers: Seq<Wager>, side: Side, n: int)
    requires
        settleable(bet, wagers),
        winning_side(bet.status) == Some(side),
        bet.pool(side) > 0,
        0 <= n <= backers(wagers, side).len(),
    ensures
        payout_sum(payouts_of(bet, wagers).take(n)) == shares_sum(
            backers(wagers, side).take(n),
            wagers,
            side,
            bet.pool(side),
            bet.total_pool(),
        ),
    decreases n,
{
    if n > 0 {
        let users = backers(wagers, side);
        lemma_payouts_are_shares(bet, wagers, side, n - 1);
        assert(payouts_of(bet, wagers).take(n).drop_last() =~= payouts_of(bet, wagers).take(n - 1));
        assert(users.take(n).drop_last() =~= users.take(n - 1));
        assert(users.take(n).last() == users[n - 1]);
        lemma_stake_within_total(wagers, side, users[n - 1]);
        lemma_share_bounds(
            stake_of(wagers, side, users[n - 1]),
            bet.pool(side),
            bet.total_pool(),
        );
    }
}

/// The payouts of a bet add up to no more than its total pool.
pub proof fn lemma_payouts_within_total_pool(bet: Bet, wagers: Seq<Wager>)
    requires
        settleable(bet, wagers),
    ensures
        0 <= payout_sum(payouts_of(bet, wagers)) <= bet.total_pool(),
{
    match winning_side(bet.status) {
        None => {},
        Some(side) => {
            if bet.pool(side) > 0 {
                let users = backers(wagers, side);
                let winning_pool = bet.pool(side);
                let total_pool = bet.total_pool();
                let sum = payout_sum(payouts_of(bet, wagers));
                lemma_payouts_are_shares(bet, wagers, side, users.len() as int);
                assert(payouts_of(bet, wagers).take(users.len() as int) =~= payouts_of(bet, wagers));
                assert(users.take(users.len() as int) =~= users);
                lemma_shares_track_stakes(users, wagers, side, winning_pool, total_pool);
                lemma_backers_hold_total(wagers, side);
                lemma_stake_within_total(wagers, side, 0);
                let stakes = stakes_sum(users, wagers, side);
                assert(sum <= total_pool) by (nonlinear_arith)
                    requires
                        winning_pool * sum <= total_pool * stakes,
                        0 <= stakes <= winning_pool,
                        winning_pool > 0,
                        total_pool >= 0,
                ;
            }
        },
    }
}

/// Where the wagers on the winning side account for the whole winning pool,
/// and that pool is not empty, the payouts fall short of the total pool by
/// less than one coin per winner.
pub proof fn lemma_rounding_loss_below_winner_count(bet: Bet, wagers: Seq<Wager>, side: Side)
    requires
        settleable(bet, wagers),
        winning_side(bet.status) == Some(side),
        bet.pool(side) > 0,
        side_total(wagers, side) == bet.pool(side),
    ensures
        0 <= bet.total_pool() - payout_sum(payouts_of(bet, wagers)) < backers(wagers, side).len(),
        payouts_of(bet, wagers).len() == backers(wagers, side).len(),
{
    let users = backers(wagers, side);
    let winning_pool = bet.pool(side);
    let total_pool = bet.total_pool();
    let sum = payout_sum(payouts_of(bet, wagers));
    lemma_payouts_within_total_pool(bet, wagers);
    lemma_payouts_are_shares(bet, wagers, side, users.len() as int);
    assert(payouts_of(bet, wagers).take(users.len() as int) =~= payouts_of(bet, wagers));
    assert(users.take(users.len() as int) =~= users);
    lemma_shares_track_stakes(users, wagers, side, winning_pool, total_pool);
    lemma_backers_hold_total(wagers, side);
    let count = users.len() as int;
    assert(count > 0) by {
        if count == 0 {
            assert(stakes_sum(users, wagers, side) == 0);
        }
    }
    assert(total_pool - sum < count) by (nonlinear_arith)
        requires
            total_pool * winning_pool - winning_pool * sum <= count * (winning_pool - 1),
            winning_pool > 0,
            count > 0,
    ;
}

} // verus!
