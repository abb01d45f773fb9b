//! Parimutuel pool arithmetic: all wagers go into two pools, and the winners
//! split the combined pool in proportion to their stake on the winning side.
//!
//! Every amount is an integer number of coins. A share is rounded down, so
//! the payouts of a bet may add up to slightly less than its total pool; the
//! remainder is not redistributed.

use vstd::prelude::*;
use vstd::arithmetic::div_mod::{
    lemma_div_is_ordered, lemma_div_multiples_vanish, lemma_div_pos_is_pos,
};
use vstd::arithmetic::mul::{
    lemma_mul_inequality, lemma_mul_is_commutative, lemma_mul_nonnegative, lemma_mul_upper_bound,
};
use crate::domain::models::{Bet, BetStatus, Probability, Side, Wager};
use crate::domain::odds::{is_odds_label, odds_label_valid};

verus! {

/// The YES probability for the given pools: `yes / (yes + no)`, and one half
/// while both pools are empty.
pub open spec fn probability_of(yes_pool: int, no_pool: int) -> Probability {
    if yes_pool + no_pool == 0 {
        Probability { numerator: 1, denominator: 2 }
    } else {
        Probability { numerator: yes_pool as i64, denominator: (yes_pool + no_pool) as i64 }
    }
}

/// The YES probability of non-negative pools lies between 0 and 1. It is
/// one half while both pools are empty, 1 where only the YES pool holds
/// coins, 0 where only the NO pool does, and `yes / (yes + no)` in general.
pub proof fn lemma_probability(yes_pool: int, no_pool: int)
    requires
        0 <= yes_pool,
        0 <= no_pool,
        yes_pool + no_pool <= i64::MAX,
    ensures
        probability_of(yes_pool, no_pool).wf(),
        yes_pool == 0 && no_pool == 0 ==> probability_of(yes_pool, no_pool) == (Probability {
            numerator: 1,
            denominator: 2,
        }),
        yes_pool > 0 && no_pool == 0 ==> probability_of(yes_pool, no_pool).numerator
            == probability_of(yes_pool, no_pool).denominator,
        yes_pool == 0 && no_pool > 0 ==> probability_of(yes_pool, no_pool).numerator == 0,
        yes_pool + no_pool > 0 ==> probability_of(yes_pool, no_pool).equals_ratio(
            yes_pool,
            yes_pool + no_pool,
        ),
{
}

/// What a stake on the winning side receives: its proportion of the total
/// pool, rounded down; nothing while the winning pool is empty.
pub open spec fn payout_share(stake: int, winning_pool: int, total_pool: int) -> int {
    if winning_pool == 0 {
        0
    } else {
        (stake * total_pool) / winning_pool
    }
}

/// The side that a resolved status pays, if the status is a resolution.
pub open spec fn winning_side(status: BetStatus) -> Option<Side> {
    match status {
        BetStatus::ResolvedYes => Some(Side::Yes),
        BetStatus::ResolvedNo => Some(Side::No),
        _ => None,
    }
}

/// What the given wager adds to `user`'s stake on `side`.
pub open spec fn contribution(w: Wager, side: Side, user: u128) -> int {
    if w.side == side && w.user_id == user {
        w.amount as int
    } else {
        0
    }
}

/// The sum of `user`'s wagers on `side`.
pub open spec fn stake_of(wagers: Seq<Wager>, side: Side, user: u128) -> int
    decreases wagers.len(),
{
    if wagers.len() == 0 {
        0
    } else {
        stake_of(wagers.drop_last(), side, user) + contribution(wagers.last(), side, user)
    }
}

/// The sum of all wagers on `side`.
pub open spec fn side_total(wagers: Seq<Wager>, side: Side) -> int
    decreases wagers.len(),
{
    if wagers.len() == 0 {
        0
    } else {
        side_total(wagers.drop_last(), side) + if wagers.last().side == side {
            wagers.last().amount as int
        } else {
            0
        }
    }
}

/// The users with a wager on `side`, each once, in the order of their first
/// such wager.
pub open spec fn backers(wagers: Seq<Wager>, side: Side) -> Seq<u128>
    decreases wagers.len(),
{
    if wagers.len() == 0 {
        Seq::empty()
    } else {
        let earlier = backers(wagers.drop_last(), side);
        let w = wagers.last();
        if w.side == side && !earlier.contains(w.user_id) {
            earlier.push(w.user_id)
        } else {
            earlier
        }
    }
}

/// No wager has a negative amount.
pub open spec fn amounts_non_negative(wagers: Seq<Wager>) -> bool {
    forall|i: int| 0 <= i < wagers.len() ==> (#[trigger] wagers[i]).amount >= 0
}

/// The bet's pools are valid, no wager is negative, and, if the bet is
/// resolved, the wagers on the winning side do not exceed the winning pool.
pub open spec fn settleable(bet: Bet, wagers: Seq<Wager>) -> bool {
    &&& bet.pools_valid()
    &&& amounts_non_negative(wagers)
    &&& winning_side(bet.status) matches Some(side) ==> side_total(wagers, side) <= bet.pool(side)
}

/// The payouts of a bet: nothing unless it is resolved with a non-empty
/// winning pool; otherwise one entry per backer of the winning side, in the
/// order of their first winning wager, each with the share of their stake.
pub open spec fn payouts_of(bet: Bet, wagers: Seq<Wager>) -> Seq<(u128, i64)> {
    match winning_side(bet.status) {
        None => Seq::empty(),
        Some(side) => if bet.pool(side) == 0 {
            Seq::empty()
        } else {
            Seq::new(
                backers(wagers, side).len(),
                |i: int|
                    (
                        backers(wagers, side)[i],
                        payout_share(
                            stake_of(wagers, side, backers(wagers, side)[i]),
                            bet.pool(side),
                            bet.total_pool(),
                        ) as i64,
                    ),
            )
        },
    }
}

/// A share of a stake that does not exceed the winning pool lies between
/// zero and the total pool.
pub proof fn lemma_share_bounds(stake: int, winning_pool: int, total_pool: int)
    requires
        0 <= stake <= winning_pool,
        0 <= total_pool,
    ensures
        0 <= payout_share(stake, winning_pool, total_pool) <= total_pool,
{
    if winning_pool > 0 {
        lemma_mul_nonnegative(stake, total_pool);
        lemma_mul_inequality(stake, winning_pool, total_pool);
        lemma_mul_is_commutative(winning_pool, total_pool);
        lemma_div_is_ordered(stake * total_pool, total_pool * winning_pool, winning_pool);
        lemma_div_multiples_vanish(total_pool, winning_pool);
        lemma_div_pos_is_pos(stake * total_pool, winning_pool);
    }
}

/// Unfolds the recursive definitions over the first `k + 1` wagers.
proof fn lemma_take_step(wagers: Seq<Wager>, k: int)
    requires
        0 <= k < wagers.len(),
    ensures
        wagers.take(k + 1).drop_last() == wagers.take(k),
        wagers.take(k + 1).last() == wagers[k],
        wagers.take(k + 1).len() == k + 1,
{
    assert(wagers.take(k + 1).drop_last() =~= wagers.take(k));
}

/// With no negative wager, a user's stake on a side lies between zero and
/// the side's total.
pub proof fn lemma_stake_within_total(wagers: Seq<Wager>, side: Side, user: u128)
    requires
        amounts_non_negative(wagers),
    ensures
        0 <= stake_of(wagers, side, user) <= side_total(wagers, side),
    decreases wagers.len(),
{
    if wagers.len() > 0 {
        assert(wagers.last() == wagers[wagers.len() - 1]);
        lemma_stake_within_total(wagers.drop_last(), side, user);
    }
}

/// With no negative wager, the total of a prefix does not exceed the total
/// of the whole sequence.
proof fn lemma_prefix_total(wagers: Seq<Wager>, side: Side, k: int)
    requires
        amounts_non_negative(wagers),
        0 <= k <= wagers.len(),
    ensures
        0 <= side_total(wagers.take(k), side) <= side_total(wagers, side),
    decreases wagers.len(),
{
    if k == wagers.len() {
        assert(wagers.take(k) =~= wagers);
        if wagers.len() > 0 {
            assert(wagers.last() == wagers[wagers.len() - 1]);
            lemma_prefix_total(wagers.drop_last(), side, k - 1);
            assert(wagers.drop_last().take(k - 1) =~= wagers.drop_last());
        }
    } else {
        assert(wagers.last() == wagers[wagers.len() - 1]);
        lemma_prefix_total(wagers.drop_last(), side, k);
        assert(wagers.drop_last().take(k) =~= wagers.take(k));
    }
}

/// No user occurs twice among the backers of a side.
pub proof fn lemma_backers_distinct(wagers: Seq<Wager>, side: Side)
    ensures
        backers(wagers, side).no_duplicates(),
    decreases wagers.len(),
{
    if wagers.len() > 0 {
        lemma_backers_distinct(wagers.drop_last(), side);
    }
}

/// A user is a backer of a side exactly if one of the wagers on that side is
/// theirs.
pub proof fn lemma_backers_membership(wagers: Seq<Wager>, side: Side, user: u128)
    ensures
        backers(wagers, side).contains(user) <==> exists|i: int|
            0 <= i < wagers.len() && (#[trigger] wagers[i]).side == side && wagers[i].user_id
                == user,
    decreases wagers.len(),
{
    if wagers.len() > 0 {
        let init = wagers.drop_last();
        let w = wagers.last();
        lemma_backers_membership(init, side, user);
        let earlier = backers(init, side);
        if backers(wagers, side).contains(user) {
            if earlier.contains(user) {
                let i = choose|i: int|
                    0 <= i < init.len() && (#[trigger] init[i]).side == side && init[i].user_id
                        == user;
                assert(wagers[i] == init[i]);
            } else {
                let j = choose|j: int|
                    0 <= j < backers(wagers, side).len() && backers(wagers, side)[j] == user;
                assert(j == earlier.len());
                assert(wagers[wagers.len() - 1] == w);
            }
        }
        if exists|i: int|
            0 <= i < wagers.len() && (#[trigger] wagers[i]).side == side && wagers[i].user_id
                == user {
            let i = choose|i: int|
                0 <= i < wagers.len() && (#[trigger] wagers[i]).side == side && wagers[i].user_id
                    == user;
            if i < init.len() {
                assert(init[i] == wagers[i]);
                assert(earlier.contains(user));
                let j = choose|j: int| 0 <= j < earlier.len() && earlier[j] == user;
                assert(backers(wagers, side)[j] == user);
            } else {
                if earlier.contains(user) {
                    let j = choose|j: int| 0 <= j < earlier.len() && earlier[j] == user;
                    assert(backers(wagers, side)[j] == user);
                } else {
                    assert(backers(wagers, side)[earlier.len() as int] == user);
                }
            }
        }
    }
}

/// Who is not a backer of a side has no stake on it.
pub proof fn lemma_stranger_has_no_stake(wagers: Seq<Wager>, side: Side, user: u128)
    requires
        !backers(wagers, side).contains(user),
    ensures
        stake_of(wagers, side, user) == 0,
    decreases wagers.len(),
{
    if wagers.len() > 0 {
        let earlier = backers(wagers.drop_last(), side);
        if earlier.contains(user) {
            let j = choose|j: int| 0 <= j < earlier.len() && earlier[j] == user;
            assert(backers(wagers, side)[j] == user);
        }
        if wagers.last().side == side && wagers.last().user_id == user {
            assert(backers(wagers, side)[earlier.len() as int] == user);
        }
        lemma_stranger_has_no_stake(wagers.drop_last(), side, user);
    }
}

/// The position of `user` among the tallied stakes.
fn position(stakes: &Vec<(u128, i64)>, user: u128) -> (r: Option<usize>)
    ensures
        match r {
            Some(i) => i < stakes.len() && stakes[i as int].0 == user,
            None => forall|j: int| 0 <= j < stakes.len() ==> (#[trigger] stakes[j]).0 != user,
        },
{
    let mut j: usize = 0;
    while j < stakes.len()
        invariant
            j <= stakes.len(),
            forall|i: int| 0 <= i < j ==> (#[trigger] stakes[i]).0 != user,
        decreases stakes.len() - j,
    {
        if stakes[j].0 == user {
            return Some(j);
        }
        j += 1;
    }
    None
}

/// Sums the wagers on `side` by user, in the order of each user's first
/// such wager.
fn tally(wagers: &[Wager], side: Side) -> (stakes: Vec<(u128, i64)>)
    requires
        amounts_non_negative(wagers@),
        side_total(wagers@, side) <= i64::MAX,
    ensures
        stakes.len() == backers(wagers@, side).len(),
        forall|j: int|
            0 <= j < stakes.len() ==> (#[trigger] stakes[j]).0 == backers(wagers@, side)[j]
                && stakes[j].1 == stake_of(wagers@, side, stakes[j].0),
{
    let mut stakes: Vec<(u128, i64)> = Vec::new();
    let mut k: usize = 0;
    while k < wagers.len()
        invariant
            k <= wagers.len(),
            amounts_non_negative(wagers@),
            side_total(wagers@, side) <= i64::MAX,
            stakes.len() == backers(wagers@.take(k as int), side).len(),
            forall|j: int|
                0 <= j < stakes.len() ==> (#[trigger] stakes[j]).0 == backers(
                    wagers@.take(k as int),
                    side,
                )[j] && stakes[j].1 == stake_of(wagers@.take(k as int), side, stakes[j].0),
        decreases wagers.len() - k,
    {
        let w: Wager = wagers[k];
        let ghost before = wagers@.take(k as int);
        let ghost after = wagers@.take(k + 1);
        proof {
            lemma_take_step(wagers@, k as int);
            lemma_backers_distinct(before, side);
        }
        if w.side == side {
            match position(&stakes, w.user_id) {
                Some(i) => {
                    proof {
                        assert(after.take(k + 1) =~= after);
                        assert(amounts_non_negative(after));
                        lemma_stake_within_total(after, side, w.user_id);
                        lemma_prefix_total(wagers@, side, k + 1);
                        assert(backers(before, side)[i as int] == w.user_id);
                    }
                    let sum: i64 = stakes[i].1 + w.amount;
                    stakes.set(i, (w.user_id, sum));
                },
                None => {
                    proof {
                        assert(!backers(before, side).contains(w.user_id)) by {
                            if backers(before, side).contains(w.user_id) {
                                let j = choose|j: int|
                                    0 <= j < backers(before, side).len() && backers(
                                        before,
                                        side,
                                    )[j] == w.user_id;
                                assert(stakes[j].0 == w.user_id);
                            }
                        }
                        lemma_stranger_has_no_stake(before, side, w.user_id);
                    }
                    stakes.push((w.user_id, w.amount));
                },
            }
        }
        k += 1;
    }
    assert(wagers@.take(k as int) =~= wagers@);
    stakes
}

/// Tests whether the payouts of `bet` can be calculated from `wagers`.
pub fn is_settleable(bet: &Bet, wagers: &[Wager]) -> (b: bool)
    ensures
        b == settleable(*bet, wagers@),
{
    if bet.yes_pool < 0 || bet.no_pool < 0 {
        return false;
    }
    if bet.yes_pool as i128 + bet.no_pool as i128 > i64::MAX as i128 {
        return false;
    }
    let mut yes_total: i128 = 0;
    let mut no_total: i128 = 0;
    let mut k: usize = 0;
    while k < wagers.len()
        invariant
            k <= wagers.len(),
            amounts_non_negative(wagers@.take(k as int)),
            yes_total == side_total(wagers@.take(k as int), Side::Yes),
            no_total == side_total(wagers@.take(k as int), Side::No),
            0 <= yes_total <= k * 0x7fff_ffff_ffff_ffff,
            0 <= no_total <= k * 0x7fff_ffff_ffff_ffff,
        decreases wagers.len() - k,
    {
        let w: Wager = wagers[k];
        proof {
            lemma_take_step(wagers@, k as int);
        }
        if w.amount < 0 {
            assert(wagers@[k as int].amount < 0);
            return false;
        }
        assert(amounts_non_negative(wagers@.take(k + 1))) by {
            assert forall|i: int| 0 <= i < k + 1 implies (#[trigger] wagers@.take(k + 1)[i]).amount
                >= 0 by {
                if i < k {
                    assert(wagers@.take(k as int)[i] == wagers@.take(k + 1)[i]);
                }
            }
        }
        assert((k + 1) * 0x7fff_ffff_ffff_ffff == k * 0x7fff_ffff_ffff_ffff + 0x7fff_ffff_ffff_ffff)
            by (nonlinear_arith);
        assert(k * 0x7fff_ffff_ffff_ffff <= 0xffff_ffff_ffff_ffff * 0x7fff_ffff_ffff_ffff)
            by (nonlinear_arith)
            requires
                k <= 0xffff_ffff_ffff_ffff,
        ;
        match w.side {
            Side::Yes => {
                yes_total = yes_total + w.amount as i128;
            },
            Side::No => {
                no_total = no_total + w.amount as i128;
            },
        }
        k += 1;
    }
    assert(wagers@.take(k as int) =~= wagers@);
    match bet.status {
        BetStatus::ResolvedYes => yes_total <= bet.yes_pool as i128,
        BetStatus::ResolvedNo => no_total <= bet.no_pool as i128,
        _ => true,
    }
}

/// Calculate the payouts for all wagers on a bet after its resolution.
///
/// Returns one `(user_id, payout)` pair per user with a wager on the winning
/// side, and nothing for a bet that is not resolved or whose winning pool is
/// empty.
pub fn calculate_payouts(bet: &Bet, wagers: &[Wager]) -> (payouts: Vec<(u128, i64)>)
    requires
        settleable(*bet, wagers@),
    ensures
        payouts@ == payouts_of(*bet, wagers@),
{
    let side: Side = match bet.status {
        BetStatus::ResolvedYes => Side::Yes,
        BetStatus::ResolvedNo => Side::No,
        _ => {
            return Vec::new();
        },
    };
    let total_pool: i64 = bet.yes_pool + bet.no_pool;
    let winning_pool: i64 = match side {
        Side::Yes => bet.yes_pool,
        Side::No => bet.no_pool,
    };
    if winning_pool == 0 {
        return Vec::new();
    }
    let stakes: Vec<(u128, i64)> = tally(wagers, side);
    let mut payouts: Vec<(u128, i64)> = Vec::new();
    let mut j: usize = 0;
    while j < stakes.len()
        invariant
            j <= stakes.len(),
            payouts.len() == j,
            settleable(*bet, wagers@),
            winning_side(bet.status) == Some(side),
            winning_pool == bet.pool(side),
            winning_pool > 0,
            total_pool == bet.total_pool(),
            stakes.len() == backers(wagers@, side).len(),
            forall|i: int|
                0 <= i < stakes.len() ==> (#[trigger] stakes[i]).0 == backers(wagers@, side)[i]
                    && stakes[i].1 == stake_of(wagers@, side, stakes[i].0),
            forall|i: int| 0 <= i < j ==> (#[trigger] payouts[i]) == payouts_of(*bet, wagers@)[i],
        decreases stakes.len() - j,
    {
        let (user, stake): (u128, i64) = stakes[j];
        proof {
            lemma_stake_within_total(wagers@, side, user);
        }
        let payout: i64 = share(stake, winning_pool, total_pool);
        payouts.push((user, payout));
        j += 1;
    }
    assert(payouts@ =~= payouts_of(*bet, wagers@));
    payouts
}

/// Calculate the current YES probability.
pub fn calculate_probability(yes_pool: i64, no_pool: i64) -> (p: Probability)
    requires
        0 <= yes_pool,
        0 <= no_pool,
        yes_pool + no_pool <= i64::MAX,
    ensures
        p == probability_of(yes_pool as int, no_pool as int),
        p.wf(),
{
    let total: i64 = yes_pool + no_pool;
    if total == 0 {
        Probability { numerator: 1, denominator: 2 }
    } else {
        Probability { numerator: yes_pool, denominator: total }
    }
}

/// The share of `stake` in `total_pool`, for a non-empty `winning_pool`.
fn share(stake: i64, winning_pool: i64, total_pool: i64) -> (r: i64)
    requires
        0 <= stake <= winning_pool,
        0 < winning_pool,
        0 <= total_pool,
    ensures
        r == payout_share(stake as int, winning_pool as int, total_pool as int),
        0 <= r <= total_pool,
{
    proof {
        lemma_share_bounds(stake as int, winning_pool as int, total_pool as int);
        lemma_mul_nonnegative(stake as int, total_pool as int);
        lemma_mul_upper_bound(
            stake as int,
            0x7fff_ffff_ffff_ffff,
            total_pool as int,
            0x7fff_ffff_ffff_ffff,
        );
        assert(0x7fff_ffff_ffff_ffff * 0x7fff_ffff_ffff_ffff < 0x7fff_ffff_ffff_ffff_ffff_ffff_ffff_ffff)
            by (nonlinear_arith);
    }
    let product: i128 = (stake as i128) * (total_pool as i128);
    (product / (winning_pool as i128)) as i64
}

/// Calculate the pools after a wager of `amount` on `side`, and what that
/// wager would be paid if its side won with no further wagers.
///
/// Returns `(new_yes_pool, new_no_pool, potential_payout)`.
pub fn calculate_potential_payout(
    current_yes_pool: i64,
    current_no_pool: i64,
    side: Side,
    amount: i64,
) -> (r: (i64, i64, i64))
    requires
        0 <= current_yes_pool,
        0 <= current_no_pool,
        0 <= amount,
        current_yes_pool + current_no_pool + amount <= i64::MAX,
    ensures
        r.0 == current_yes_pool + (if side == Side::Yes { amount as int } else { 0 }),
        r.1 == current_no_pool + (if side == Side::No { amount as int } else { 0 }),
        r.2 == payout_share(
            amount as int,
            if side == Side::Yes { r.0 as int } else { r.1 as int },
            r.0 + r.1,
        ),
        0 <= r.2 <= r.0 + r.1,
{
    let (new_yes_pool, new_no_pool): (i64, i64) = match side {
        Side::Yes => (current_yes_pool + amount, current_no_pool),
        Side::No => (current_yes_pool, current_no_pool + amount),
    };
    let total_pool: i64 = new_yes_pool + new_no_pool;
    let winning_pool: i64 = match side {
        Side::Yes => new_yes_pool,
        Side::No => new_no_pool,
    };
    if winning_pool == 0 {
        return (new_yes_pool, new_no_pool, 0);
    }
    let payout: i64 = share(amount, winning_pool, total_pool);
    (new_yes_pool, new_no_pool, payout)
}

/// Parse an opening-odds label such as `"3:1"` and seed the pools for the
/// creator's opening wager.
///
/// Returns `(yes_pool, no_pool)`, or nothing if the label is malformed. The
/// label is only checked, not applied: the whole opening wager goes into
/// the YES pool whatever ratio the label states, and the odds emerge from
/// the wagers that follow.
pub fn parse_initial_odds(odds: &str, opening_wager: i64) -> (r: Option<(i64, i64)>)
    ensures
        r == (if odds_label_valid(odds@) {
            Some((opening_wager, 0i64))
        } else {
            None
        }),
{
    if !is_odds_label(odds) {
        return None;
    }
    Some((opening_wager, 0))
}

} // verus!
