//! What every operation of the service keeps true of a ledger.
//!
//! A ledger is consistent if no balance is negative, no market grants a
//! negative starting balance, no two rows share an identifier, no two
//! markets an invite code and no two users of one market a device, every
//! wager is positive and belongs to a bet, the pools of every bet hold exactly
//! what was wagered on each of its sides, and the snapshot of every wager
//! shows the pools right after it. The ledger of an empty store is
//! consistent, and no operation that the service offers makes a consistent
//! ledger inconsistent.

use vstd::prelude::*;
use crate::db::error::DbResult;
use crate::db::ledger::{
    bet_with_pools, bet_with_status, lemma_filter_members, lemma_filter_nothing,
    lemma_filter_push, lemma_filter_twice, lemma_first_where_map, lemma_first_where_push,
    lemma_first_where_sound, lemma_pairwise_filter, lemma_pairwise_map, lemma_pairwise_push,
    market_with_status, pairwise, resolution_time, user_with_balance, Ledger,
};
use crate::domain::conservation::{
    lemma_payouts_within_total_pool, lemma_rounding_loss_below_winner_count, payout_sum,
};
use crate::domain::models::{Bet, BetStatus, Market, MarketStatus, Side, User, Wager};
use crate::domain::parimutuel::{
    backers, lemma_share_bounds, lemma_stake_within_total, payouts_of, probability_of,
    settleable, side_total, stake_of, winning_side,
};
use crate::service::bets::{
    approval_outcome, bet_creation_outcome, can_credit, credited, resolution_outcome,
    wager_outcome,
};
use crate::service::markets::{
    deletion_outcome, join_outcome, market_creation_outcome, transition_outcome,
};
use crate::service::plans::{
    closing_time_of, drafted_market, founding_admin, resolved_status, CreateMarketParams,
};

verus! {

/// No user holds a negative balance.
pub open spec fn solvent(ledger: Ledger) -> bool {
    forall|i: int| 0 <= i < ledger.users.len() ==> (#[trigger] ledger.users[i]).balance >= 0
}

/// No market grants a negative starting balance.
pub open spec fn funded(ledger: Ledger) -> bool {
    forall|i: int|
        0 <= i < ledger.markets.len() ==> (#[trigger] ledger.markets[i]).starting_balance >= 0
}

/// Two markets differ in identifier and in invite code.
pub open spec fn markets_differ() -> spec_fn(Market, Market) -> bool {
    |a: Market, b: Market| a.id != b.id && a.invite_code@ != b.invite_code@
}

/// Two users differ in identifier, and in device if they are of one
/// market.
pub open spec fn users_differ() -> spec_fn(User, User) -> bool {
    |a: User, b: User| a.id != b.id && !(a.market_id == b.market_id && a.device_id@ == b.device_id@)
}

/// Two bets differ in identifier.
pub open spec fn bets_differ() -> spec_fn(Bet, Bet) -> bool {
    |a: Bet, b: Bet| a.id != b.id
}

/// Two wagers differ in identifier.
pub open spec fn wagers_differ() -> spec_fn(Wager, Wager) -> bool {
    |a: Wager, b: Wager| a.id != b.id
}

/// No two rows of a table share an identifier, no two markets an invite
/// code, and no two users of one market a device.
pub open spec fn keyed(ledger: Ledger) -> bool {
    &&& pairwise(ledger.markets, markets_differ())
    &&& pairwise(ledger.users, users_differ())
    &&& pairwise(ledger.bets, bets_differ())
    &&& pairwise(ledger.wagers, wagers_differ())
}

/// The wager is positive and belongs to a bet of the ledger.
pub open spec fn wager_placed(ledger: Ledger, wager: Wager) -> bool {
    wager.amount > 0 && ledger.find_bet(wager.bet_id) is Some
}

/// Every wager is positive and belongs to a bet.
pub open spec fn staked(ledger: Ledger) -> bool {
    forall|i: int| 0 <= i < ledger.wagers.len() ==> wager_placed(ledger, #[trigger] ledger.wagers[i])
}

/// The snapshot of the wager at `k` shows the pools and the probability
/// right after that wager: what the wagers up to it add up to.
pub open spec fn snapshot_in_step(wagers: Seq<Wager>, k: int) -> bool {
    &&& wagers[k].yes_pool_after == side_total(wagers.take(k + 1), Side::Yes)
    &&& wagers[k].no_pool_after == side_total(wagers.take(k + 1), Side::No)
    &&& wagers[k].probability_after == probability_of(
        wagers[k].yes_pool_after as int,
        wagers[k].no_pool_after as int,
    )
}

/// Every snapshot shows the pools right after its wager, so that the
/// wagers of a bet give the course of its odds.
pub open spec fn chart_in_step(wagers: Seq<Wager>) -> bool {
    forall|k: int| 0 <= k < wagers.len() ==> #[trigger] snapshot_in_step(wagers, k)
}

/// The pools of the bet are valid and hold exactly what was wagered on each
/// side of it, and the snapshots of its wagers show how the pools grew.
pub open spec fn bet_balanced(ledger: Ledger, bet: Bet) -> bool {
    &&& bet.pools_valid()
    &&& side_total(ledger.wagers_for_bet(bet.id), Side::Yes) == bet.yes_pool
    &&& side_total(ledger.wagers_for_bet(bet.id), Side::No) == bet.no_pool
    &&& chart_in_step(ledger.wagers_for_bet(bet.id))
}

/// The pools of every bet hold exactly what was wagered on it.
pub open spec fn balanced(ledger: Ledger) -> bool {
    forall|i: int| 0 <= i < ledger.bets.len() ==> bet_balanced(ledger, #[trigger] ledger.bets[i])
}

/// The ledger is consistent.
pub open spec fn consistent(ledger: Ledger) -> bool {
    &&& solvent(ledger)
    &&& funded(ledger)
    &&& keyed(ledger)
    &&& staked(ledger)
    &&& balanced(ledger)
}

/// The ledger of an empty store is consistent.
pub proof fn lemma_empty_is_consistent()
    ensures
        consistent(Ledger::empty()),
{
}

/// A bet that is found is a bet of the ledger with the identifier that was
/// looked for.
proof fn lemma_found_bet(ledger: Ledger, id: u128)
    ensures
        ledger.find_bet(id) matches Some(bet) ==> bet.id == id && ledger.bets.contains(bet),
        ledger.find_bet(id) is None ==> forall|i: int|
            0 <= i < ledger.bets.len() ==> (#[trigger] ledger.bets[i]).id != id,
{
    lemma_first_where_sound(ledger.bets, |b: Bet| b.id == id);
}

/// A bet of a balanced ledger is balanced.
proof fn lemma_member_balanced(ledger: Ledger, bet: Bet)
    requires
        balanced(ledger),
        ledger.bets.contains(bet),
    ensures
        bet_balanced(ledger, bet),
{
    let i = choose|i: int| 0 <= i < ledger.bets.len() && ledger.bets[i] == bet;
    assert(bet_balanced(ledger, ledger.bets[i]));
}

/// A market that the ledger accepts differs from all its markets.
proof fn lemma_fresh_market(ledger: Ledger, market: Market)
    requires
        ledger.accepts_market(market),
        pairwise(ledger.markets, markets_differ()),
    ensures
        pairwise(ledger.markets.push(market), markets_differ()),
{
    lemma_first_where_sound(ledger.markets, |m: Market| m.id == market.id);
    lemma_first_where_sound(ledger.markets, |m: Market| m.invite_code@ == market.invite_code@);
    lemma_pairwise_push(ledger.markets, markets_differ(), market);
}

/// A user that the ledger accepts differs from all its users.
proof fn lemma_fresh_user(ledger: Ledger, user: User)
    requires
        ledger.accepts_user(user),
        pairwise(ledger.users, users_differ()),
    ensures
        pairwise(ledger.users.push(user), users_differ()),
{
    lemma_first_where_sound(ledger.users, |u: User| u.id == user.id);
    lemma_first_where_sound(
        ledger.users,
        |u: User| u.market_id == user.market_id && u.device_id@ == user.device_id@,
    );
    lemma_pairwise_push(ledger.users, users_differ(), user);
}

/// A bet whose identifier is not in use differs from all bets.
proof fn lemma_fresh_bet(ledger: Ledger, bet: Bet)
    requires
        ledger.find_bet(bet.id) is None,
        pairwise(ledger.bets, bets_differ()),
    ensures
        pairwise(ledger.bets.push(bet), bets_differ()),
{
    lemma_first_where_sound(ledger.bets, |b: Bet| b.id == bet.id);
    lemma_pairwise_push(ledger.bets, bets_differ(), bet);
}

/// A wager whose identifier is not in use differs from all wagers.
proof fn lemma_fresh_wager(ledger: Ledger, wager: Wager)
    requires
        ledger.find_wager(wager.id) is None,
        pairwise(ledger.wagers, wagers_differ()),
    ensures
        pairwise(ledger.wagers.push(wager), wagers_differ()),
{
    lemma_first_where_sound(ledger.wagers, |w: Wager| w.id == wager.id);
    lemma_pairwise_push(ledger.wagers, wagers_differ(), wager);
}

/// Setting a balance keeps the users different.
proof fn lemma_balance_keeps_users(ledger: Ledger, user_id: u128, balance: i64)
    requires
        pairwise(ledger.users, users_differ()),
    ensures
        pairwise(ledger.with_balance(user_id, balance).users, users_differ()),
{
    lemma_pairwise_map(
        ledger.users,
        users_differ(),
        |u: User|
            if u.id == user_id {
                user_with_balance(u, balance)
            } else {
                u
            },
    );
}

/// Any two different bets of a ledger whose bets differ have different
/// identifiers.
proof fn lemma_bets_apart(ledger: Ledger, i: int, j: int)
    requires
        pairwise(ledger.bets, bets_differ()),
        0 <= i < ledger.bets.len(),
        0 <= j < ledger.bets.len(),
        i != j,
    ensures
        ledger.bets[i].id != ledger.bets[j].id,
{
    if i < j {
        assert(bets_differ()(ledger.bets[i], ledger.bets[j]));
    } else {
        assert(bets_differ()(ledger.bets[j], ledger.bets[i]));
    }
}

/// A chart that is in step stays in step with one more wager whose
/// snapshot shows what all wagers add up to.
proof fn lemma_chart_grows(wagers: Seq<Wager>, wager: Wager)
    requires
        chart_in_step(wagers),
        wager.yes_pool_after == side_total(wagers.push(wager), Side::Yes),
        wager.no_pool_after == side_total(wagers.push(wager), Side::No),
        wager.probability_after == probability_of(
            wager.yes_pool_after as int,
            wager.no_pool_after as int,
        ),
    ensures
        chart_in_step(wagers.push(wager)),
{
    let grown = wagers.push(wager);
    assert forall|k: int| 0 <= k < grown.len() implies #[trigger] snapshot_in_step(grown, k) by {
        if k < wagers.len() {
            assert(snapshot_in_step(wagers, k));
            assert(grown.take(k + 1) =~= wagers.take(k + 1));
        } else {
            assert(grown.take(k + 1) =~= grown);
        }
    }
}

/// Placing a wager keeps a consistent ledger consistent.
pub proof fn lemma_wager_keeps_consistency(
    before: Ledger,
    reliable: bool,
    bet_id: u128,
    user_id: u128,
    side: Side,
    amount: i64,
    wager_id: u128,
    now: i64,
    r: DbResult<Wager>,
    after: Ledger,
)
    requires
        wager_outcome(before, reliable, bet_id, user_id, side, amount, wager_id, now, r, after),
        consistent(before),
        r is Ok,
    ensures
        consistent(after),
{
    let wager = r->Ok_0;
    let bet = before.find_bet(bet_id)->0;
    let user = before.find_user(user_id)->0;
    let yes_pool = wager.yes_pool_after;
    let no_pool = wager.no_pool_after;
    let change = |b: Bet|
        if b.id == bet_id {
            bet_with_pools(b, yes_pool, no_pool)
        } else {
            b
        };
    lemma_found_bet(before, bet_id);
    lemma_member_balanced(before, bet);
    assert(after.bets == before.bets.map_values(change));
    assert(after.wagers == before.wagers.push(wager));
    assert forall|i: int| 0 <= i < after.users.len() implies (#[trigger] after.users[i]).balance
        >= 0 by {
        assert(before.users[i].balance >= 0);
    }
    lemma_pairwise_map(before.bets, bets_differ(), change);
    lemma_fresh_wager(before, wager);
    lemma_balance_keeps_users(
        before.with_wager(wager).with_pools(bet_id, yes_pool, no_pool),
        user_id,
        (user.balance - amount) as i64,
    );
    assert forall|i: int| 0 <= i < after.wagers.len() implies wager_placed(
        after,
        #[trigger] after.wagers[i],
    ) by {
        let id = after.wagers[i].bet_id;
        lemma_first_where_map(before.bets, |b: Bet| b.id == id, change);
        if i < before.wagers.len() {
            assert(wager_placed(before, before.wagers[i]));
        }
    }
    assert forall|i: int| 0 <= i < after.bets.len() implies bet_balanced(
        after,
        #[trigger] after.bets[i],
    ) by {
        let old = before.bets[i];
        assert(bet_balanced(before, old));
        assert(after.bets[i].id == old.id);
        lemma_filter_push(before.wagers, |w: Wager| w.bet_id == old.id, wager);
        let listed = before.wagers_for_bet(old.id);
        if old.id == bet_id {
            assert(listed.push(wager).drop_last() =~= listed);
            lemma_chart_grows(listed, wager);
        }
    }
}

/// Creating a bet keeps a consistent ledger consistent.
pub proof fn lemma_bet_creation_keeps_consistency(
    before: Ledger,
    reliable: bool,
    market_id: u128,
    creator_id: u128,
    subject_user_id: u128,
    description: String,
    initial_odds: String,
    opening_wager: i64,
    hide_from_subject: bool,
    bet_id: u128,
    wager_id: u128,
    now: i64,
    r: DbResult<Bet>,
    after: Ledger,
)
    requires
        bet_creation_outcome(
            before,
            reliable,
            market_id,
            creator_id,
            subject_user_id,
            description,
            initial_odds,
            opening_wager,
            hide_from_subject,
            bet_id,
            wager_id,
            now,
            r,
            after,
        ),
        consistent(before),
        r is Ok,
    ensures
        consistent(after),
{
    let bet = r->Ok_0;
    let creator = before.find_user(creator_id)->0;
    let wager = after.wagers.last();
    lemma_found_bet(before, bet_id);
    assert(after.bets == before.bets.push(bet));
    assert(after.wagers == before.wagers.push(wager));
    assert(wager.bet_id == bet_id && wager.amount == opening_wager && wager.side == Side::Yes);
    assert forall|i: int| 0 <= i < after.users.len() implies (#[trigger] after.users[i]).balance
        >= 0 by {
        assert(before.users[i].balance >= 0);
    }
    lemma_fresh_bet(before, bet);
    lemma_fresh_wager(before, wager);
    lemma_balance_keeps_users(
        before.with_bet(bet).with_wager(wager),
        creator_id,
        (creator.balance - opening_wager) as i64,
    );
    assert forall|i: int| 0 <= i < after.wagers.len() implies wager_placed(
        after,
        #[trigger] after.wagers[i],
    ) by {
        let id = after.wagers[i].bet_id;
        lemma_first_where_push(before.bets, |b: Bet| b.id == id, bet);
        if i < before.wagers.len() {
            assert(wager_placed(before, before.wagers[i]));
        }
    }
    assert forall|i: int| 0 <= i < after.bets.len() implies bet_balanced(
        after,
        #[trigger] after.bets[i],
    ) by {
        let this = after.bets[i];
        lemma_filter_push(before.wagers, |w: Wager| w.bet_id == this.id, wager);
        if i < before.bets.len() {
            assert(bet_balanced(before, before.bets[i]));
            assert(before.bets[i].id != bet_id);
        } else {
            assert forall|k: int| 0 <= k < before.wagers.len() implies !(|w: Wager|
                w.bet_id == bet_id)(#[trigger] before.wagers[k]) by {
                assert(wager_placed(before, before.wagers[k]));
            }
            lemma_filter_nothing(before.wagers, |w: Wager| w.bet_id == bet_id);
            let listed = Seq::<Wager>::empty().push(wager);
            assert(listed.drop_last() =~= Seq::<Wager>::empty());
            assert(side_total(Seq::<Wager>::empty(), Side::Yes) == 0);
            assert(side_total(Seq::<Wager>::empty(), Side::No) == 0);
            lemma_first_where_sound(before.users, |u: User| u.id == creator_id);
            lemma_chart_grows(Seq::<Wager>::empty(), wager);
        }
    }
}

/// Creating a market that grants no negative starting balance keeps a
/// consistent ledger consistent.
pub proof fn lemma_market_creation_keeps_consistency(
    before: Ledger,
    reliable: bool,
    params: CreateMarketParams,
    market_id: u128,
    admin_id: u128,
    invite_code: String,
    now: i64,
    r: DbResult<(Market, User)>,
    after: Ledger,
)
    requires
        market_creation_outcome(
            before,
            reliable,
            params,
            market_id,
            admin_id,
            invite_code,
            now,
            r,
            after,
        ),
        consistent(before),
        params.starting_balance >= 0,
    ensures
        consistent(after),
{
    if after != before {
        let closes = closing_time_of(now, params.duration_hours);
        let market = drafted_market(params, market_id, admin_id, invite_code, now, closes as i64);
        let admin = founding_admin(params, market_id, admin_id, now);
        lemma_fresh_market(before, market);
        if r is Ok {
            lemma_fresh_user(before, admin);
        }
        assert forall|i: int| 0 <= i < after.users.len() implies (#[trigger] after.users[i]).balance
            >= 0 by {
            if i < before.users.len() {
                assert(before.users[i].balance >= 0);
            }
        }
        assert forall|i: int| 0 <= i < after.markets.len() implies (
        #[trigger] after.markets[i]).starting_balance >= 0 by {
            if i < before.markets.len() {
                assert(before.markets[i].starting_balance >= 0);
            }
        }
        assert forall|i: int| 0 <= i < after.wagers.len() implies wager_placed(
            after,
            #[trigger] after.wagers[i],
        ) by {
            assert(wager_placed(before, before.wagers[i]));
        }
        assert forall|i: int| 0 <= i < after.bets.len() implies bet_balanced(
            after,
            #[trigger] after.bets[i],
        ) by {
            assert(bet_balanced(before, before.bets[i]));
        }
    }
}

/// Joining a market keeps a consistent ledger consistent.
pub proof fn lemma_join_keeps_consistency(
    before: Ledger,
    reliable: bool,
    invite_code: String,
    device_id: String,
    display_name: String,
    avatar: String,
    user_id: u128,
    now: i64,
    r: DbResult<(Market, User)>,
    after: Ledger,
)
    requires
        join_outcome(
            before,
            reliable,
            invite_code,
            device_id,
            display_name,
            avatar,
            user_id,
            now,
            r,
            after,
        ),
        consistent(before),
    ensures
        consistent(after),
{
    if after != before {
        let market = r->Ok_0.0;
        lemma_fresh_user(before, r->Ok_0.1);
        lemma_first_where_sound(before.markets, |m: Market| m.invite_code@ == invite_code@);
        let k = choose|k: int| 0 <= k < before.markets.len() && before.markets[k] == market;
        assert(before.markets[k].starting_balance >= 0);
        assert forall|i: int| 0 <= i < after.users.len() implies (#[trigger] after.users[i]).balance
            >= 0 by {
            if i < before.users.len() {
                assert(before.users[i].balance >= 0);
            }
        }
        assert forall|i: int| 0 <= i < after.wagers.len() implies wager_placed(
            after,
            #[trigger] after.wagers[i],
        ) by {
            assert(wager_placed(before, before.wagers[i]));
        }
        assert forall|i: int| 0 <= i < after.bets.len() implies bet_balanced(
            after,
            #[trigger] after.bets[i],
        ) by {
            assert(bet_balanced(before, before.bets[i]));
        }
    }
}

/// A change of a market's status keeps a consistent ledger consistent.
pub proof fn lemma_transition_keeps_consistency(
    before: Ledger,
    reliable: bool,
    market_id: u128,
    admin_id: u128,
    target: MarketStatus,
    r: DbResult<()>,
    after: Ledger,
)
    requires
        transition_outcome(before, reliable, market_id, admin_id, target, r, after),
        consistent(before),
    ensures
        consistent(after),
{
    if after != before {
        lemma_pairwise_map(
            before.markets,
            markets_differ(),
            |m: Market|
                if m.id == market_id {
                    market_with_status(m, target)
                } else {
                    m
                },
        );
        assert forall|i: int| 0 <= i < after.markets.len() implies (
        #[trigger] after.markets[i]).starting_balance >= 0 by {
            assert(before.markets[i].starting_balance >= 0);
        }
        assert forall|i: int| 0 <= i < after.wagers.len() implies wager_placed(
            after,
            #[trigger] after.wagers[i],
        ) by {
            assert(wager_placed(before, before.wagers[i]));
        }
        assert forall|i: int| 0 <= i < after.bets.len() implies bet_balanced(
            after,
            #[trigger] after.bets[i],
        ) by {
            assert(bet_balanced(before, before.bets[i]));
        }
    }
}

/// A change of the status of the bets with one identifier keeps what is
/// true of bets and wagers in a consistent ledger.
proof fn lemma_status_keeps_bets(before: Ledger, bet_id: u128, status: BetStatus, now: i64)
    requires
        consistent(before),
    ensures
        consistent(before.with_bet_status(bet_id, status, now)),
{
    let after = before.with_bet_status(bet_id, status, now);
    let change = |b: Bet|
        if b.id == bet_id {
            bet_with_status(b, status, resolution_time(status, now))
        } else {
            b
        };
    assert(after.bets == before.bets.map_values(change));
    lemma_pairwise_map(before.bets, bets_differ(), change);
    assert forall|i: int| 0 <= i < after.wagers.len() implies wager_placed(
        after,
        #[trigger] after.wagers[i],
    ) by {
        let id = after.wagers[i].bet_id;
        lemma_first_where_map(before.bets, |b: Bet| b.id == id, change);
        assert(wager_placed(before, before.wagers[i]));
    }
    assert forall|i: int| 0 <= i < after.bets.len() implies bet_balanced(
        after,
        #[trigger] after.bets[i],
    ) by {
        assert(bet_balanced(before, before.bets[i]));
    }
}

/// An approval keeps a consistent ledger consistent.
pub proof fn lemma_approval_keeps_consistency(
    before: Ledger,
    reliable: bool,
    bet_id: u128,
    admin_id: u128,
    r: DbResult<Bet>,
    after: Ledger,
)
    requires
        approval_outcome(before, reliable, bet_id, admin_id, r, after),
        consistent(before),
    ensures
        consistent(after),
{
    if after != before {
        lemma_status_keeps_bets(before, bet_id, BetStatus::Active, 0);
    }
}

/// In a consistent ledger the payouts of a bet can be calculated from its
/// wagers, which account for the whole of each pool.
pub proof fn lemma_consistent_bets_are_settleable(ledger: Ledger, bet: Bet)
    requires
        consistent(ledger),
        ledger.bets.contains(bet),
    ensures
        settleable(bet, ledger.wagers_for_bet(bet.id)),
        side_total(ledger.wagers_for_bet(bet.id), Side::Yes) == bet.yes_pool,
        side_total(ledger.wagers_for_bet(bet.id), Side::No) == bet.no_pool,
{
    lemma_member_balanced(ledger, bet);
    let wagers = ledger.wagers_for_bet(bet.id);
    lemma_filter_members(ledger.wagers, |w: Wager| w.bet_id == bet.id);
    assert forall|k: int| 0 <= k < wagers.len() implies (#[trigger] wagers[k]).amount >= 0 by {
        let w = wagers[k];
        assert(ledger.wagers.contains(w));
        let i = choose|i: int| 0 <= i < ledger.wagers.len() && ledger.wagers[i] == w;
        assert(wager_placed(ledger, ledger.wagers[i]));
    }
}

/// No payout of a bet is negative.
proof fn lemma_payouts_non_negative(bet: Bet, wagers: Seq<Wager>)
    requires
        settleable(bet, wagers),
    ensures
        forall|k: int|
            0 <= k < payouts_of(bet, wagers).len() ==> (#[trigger] payouts_of(bet, wagers)[k]).1
                >= 0,
{
    assert forall|k: int| 0 <= k < payouts_of(bet, wagers).len() implies (#[trigger] payouts_of(
        bet,
        wagers,
    )[k]).1 >= 0 by {
        let side = winning_side(bet.status)->0;
        let user = backers(wagers, side)[k];
        lemma_stake_within_total(wagers, side, user);
        lemma_share_bounds(stake_of(wagers, side, user), bet.pool(side), bet.total_pool());
    }
}

/// Paying winners out of a solvent ledger leaves markets, bets and wagers
/// as they are and no balance negative.
proof fn lemma_credits(ledger: Ledger, base: Ledger, payouts: Seq<(u128, i64)>)
    requires
        solvent(ledger),
        solvent(base),
        pairwise(ledger.users, users_differ()),
        forall|k: int| 0 <= k < payouts.len() ==> (#[trigger] payouts[k]).1 >= 0,
        can_credit(base, payouts),
    ensures
        solvent(credited(ledger, base, payouts)),
        pairwise(credited(ledger, base, payouts).users, users_differ()),
        credited(ledger, base, payouts).markets == ledger.markets,
        credited(ledger, base, payouts).bets == ledger.bets,
        credited(ledger, base, payouts).wagers == ledger.wagers,
    decreases payouts.len(),
{
    if payouts.len() > 0 {
        let rest = payouts.drop_last();
        let last = payouts.last();
        assert forall|k: int| 0 <= k < rest.len() implies (#[trigger] rest[k]).1 >= 0 by {
            assert(rest[k] == payouts[k]);
        }
        assert(can_credit(base, rest)) by {
            assert forall|k: int| 0 <= k < rest.len() implies (base.find_user(
                (#[trigger] rest[k]).0,
            ) matches Some(user) && i64::MIN <= user.balance + rest[k].1 <= i64::MAX) by {
                assert(rest[k] == payouts[k]);
            }
        }
        lemma_credits(ledger, base, rest);
        let inner = credited(ledger, base, rest);
        let out = credited(ledger, base, payouts);
        assert(payouts[payouts.len() - 1] == last);
        lemma_first_where_sound(base.users, |u: User| u.id == last.0);
        let winner = base.find_user(last.0)->0;
        lemma_balance_keeps_users(inner, last.0, (winner.balance + last.1) as i64);
        let k = choose|k: int| 0 <= k < base.users.len() && base.users[k] == winner;
        assert(base.users[k].balance >= 0);
        assert forall|i: int| 0 <= i < out.users.len() implies (#[trigger] out.users[i]).balance
            >= 0 by {
            assert(inner.users[i].balance >= 0);
        }
    }
}

/// Resolving a bet keeps a consistent ledger consistent.
pub proof fn lemma_resolution_keeps_consistency(
    before: Ledger,
    reliable: bool,
    bet_id: u128,
    admin_id: u128,
    outcome: Side,
    now: i64,
    r: DbResult<Vec<(u128, i64)>>,
    after: Ledger,
)
    requires
        resolution_outcome(before, reliable, bet_id, admin_id, outcome, now, r, after),
        consistent(before),
        r is Ok,
    ensures
        consistent(after),
{
    let payouts = r->Ok_0@;
    let bet = before.find_bet(bet_id)->0;
    let status = resolved_status(outcome);
    let resolved = bet_with_status(bet, status, Some(now));
    let marked = before.with_bet_status(bet_id, status, now);
    lemma_status_keeps_bets(before, bet_id, status, now);
    lemma_payouts_non_negative(resolved, before.wagers_for_bet(bet_id));
    lemma_credits(marked, before, payouts);
    assert forall|i: int| 0 <= i < after.wagers.len() implies wager_placed(
        after,
        #[trigger] after.wagers[i],
    ) by {
        assert(wager_placed(marked, marked.wagers[i]));
    }
    assert forall|i: int| 0 <= i < after.bets.len() implies bet_balanced(
        after,
        #[trigger] after.bets[i],
    ) by {
        assert(bet_balanced(marked, marked.bets[i]));
    }
}

/// In a consistent ledger the resolution of a bet is never refused for
/// wagers that do not fit the pools; what it pays out does not exceed the
/// total pool of the bet; and where the winning pool is not empty, it falls
/// short of the total pool by less than one coin per winner.
pub proof fn lemma_resolution_in_a_consistent_ledger(
    ledger: Ledger,
    bet_id: u128,
    outcome: Side,
    now: i64,
)
    requires
        consistent(ledger),
        ledger.find_bet(bet_id) is Some,
    ensures
        ({
            let bet = bet_with_status(
                ledger.find_bet(bet_id)->0,
                resolved_status(outcome),
                Some(now),
            );
            let wagers = ledger.wagers_for_bet(bet_id);
            &&& settleable(bet, wagers)
            &&& 0 <= payout_sum(payouts_of(bet, wagers)) <= bet.total_pool()
            &&& bet.pool(outcome) > 0 ==> bet.total_pool() - payout_sum(payouts_of(bet, wagers))
                < payouts_of(bet, wagers).len()
        }),
{
    let found = ledger.find_bet(bet_id)->0;
    let bet = bet_with_status(found, resolved_status(outcome), Some(now));
    let wagers = ledger.wagers_for_bet(bet_id);
    lemma_found_bet(ledger, bet_id);
    lemma_consistent_bets_are_settleable(ledger, found);
    lemma_payouts_within_total_pool(bet, wagers);
    if bet.pool(outcome) > 0 {
        lemma_rounding_loss_below_winner_count(bet, wagers, outcome);
    }
}

/// Deleting a market keeps a consistent ledger consistent.
pub proof fn lemma_deletion_keeps_consistency(
    before: Ledger,
    reliable: bool,
    market_id: u128,
    admin_id: u128,
    r: DbResult<()>,
    after: Ledger,
)
    requires
        deletion_outcome(before, reliable, market_id, admin_id, r, after),
        consistent(before),
    ensures
        consistent(after),
{
    if after != before {
        let keep_market = |m: Market| m.id != market_id;
        let keep_user = |u: User| u.market_id != market_id;
        let keep_bet = |b: Bet| b.market_id != market_id;
        let keep_wager = |w: Wager|
            !(before.find_bet(w.bet_id) matches Some(b) && b.market_id == market_id);
        assert(after.markets == before.markets.filter(keep_market));
        assert(after.users == before.users.filter(keep_user));
        assert(after.bets == before.bets.filter(keep_bet));
        assert(after.wagers == before.wagers.filter(keep_wager));
        lemma_filter_members(before.markets, keep_market);
        lemma_filter_members(before.users, keep_user);
        lemma_filter_members(before.bets, keep_bet);
        lemma_filter_members(before.wagers, keep_wager);
        assert forall|i: int| 0 <= i < after.users.len() implies (#[trigger] after.users[i]).balance
            >= 0 by {
            let u = after.users[i];
            assert(before.users.contains(u));
            let k = choose|k: int| 0 <= k < before.users.len() && before.users[k] == u;
            assert(before.users[k].balance >= 0);
        }
        assert forall|i: int| 0 <= i < after.markets.len() implies (
        #[trigger] after.markets[i]).starting_balance >= 0 by {
            let m = after.markets[i];
            assert(before.markets.contains(m));
            let k = choose|k: int| 0 <= k < before.markets.len() && before.markets[k] == m;
            assert(before.markets[k].starting_balance >= 0);
        }
        lemma_pairwise_filter(before.markets, markets_differ(), keep_market);
        lemma_pairwise_filter(before.users, users_differ(), keep_user);
        lemma_pairwise_filter(before.bets, bets_differ(), keep_bet);
        lemma_pairwise_filter(before.wagers, wagers_differ(), keep_wager);
        assert forall|i: int| 0 <= i < after.wagers.len() implies wager_placed(
            after,
            #[trigger] after.wagers[i],
        ) by {
            let w = after.wagers[i];
            assert(before.wagers.contains(w));
            let k = choose|k: int| 0 <= k < before.wagers.len() && before.wagers[k] == w;
            assert(wager_placed(before, before.wagers[k]));
            lemma_found_bet(before, w.bet_id);
            let b = before.find_bet(w.bet_id)->0;
            let n = choose|n: int| 0 <= n < before.bets.len() && before.bets[n] == b;
            assert(keep_bet(before.bets[n]));
            assert(after.bets.contains(b));
            let m = choose|m: int| 0 <= m < after.bets.len() && after.bets[m] == b;
            lemma_found_bet(after, w.bet_id);
            if after.find_bet(w.bet_id) is None {
                assert(after.bets[m].id != w.bet_id);
            }
        }
        assert forall|i: int| 0 <= i < after.bets.len() implies bet_balanced(
            after,
            #[trigger] after.bets[i],
        ) by {
            let x = after.bets[i];
            assert(before.bets.contains(x));
            let n = choose|n: int| 0 <= n < before.bets.len() && before.bets[n] == x;
            assert(bet_balanced(before, before.bets[n]));
            let of_bet = |w: Wager| w.bet_id == x.id;
            lemma_found_bet(before, x.id);
            assert(before.find_bet(x.id) == Some(x)) by {
                let b = before.find_bet(x.id)->0;
                let k = choose|k: int| 0 <= k < before.bets.len() && before.bets[k] == b;
                if k != n {
                    lemma_bets_apart(before, k, n);
                }
            }
            assert forall|k: int| 0 <= k < before.wagers.len() && of_bet(
                #[trigger] before.wagers[k],
            ) implies keep_wager(before.wagers[k]) by {}
            lemma_filter_twice(before.wagers, keep_wager, of_bet);
        }
    }
}

} // verus!
