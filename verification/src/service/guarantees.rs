//! What follows from the contracts of the service for whoever uses it over
//! a reliable store.

use vstd::prelude::*;
use crate::db::error::DbResult;
use crate::db::ledger::{
    lemma_first_where_found, lemma_first_where_map, lemma_first_where_sound, market_with_status,
    Ledger,
};
use crate::domain::models::{Bet, BetStatus, Market, MarketStatus, Side, User, Wager};
use crate::service::bets::{
    approval_outcome, bet_creation_outcome, can_credit, credited, resolution_outcome,
    wager_outcome,
};
use crate::service::markets::{
    deletion_outcome, join_outcome, market_creation_outcome, transition_outcome,
};
use crate::service::plans::stage;

verus! {

/// Nobody places a wager on a bet about themselves, whatever their role:
/// the request fails, and over a reliable store it changes nothing.
pub proof fn lemma_no_wager_on_oneself(
    before: Ledger,
    reliable: bool,
    bet_id: u128,
    user_id: u128,
    side: Side,
    amount: i64,
    wager_id: u128,
    now: i64,
    r: DbResult<Wager>,
    after: Ledger,
)
    requires
        wager_outcome(before, reliable, bet_id, user_id, side, amount, wager_id, now, r, after),
        before.find_bet(bet_id) matches Some(bet) && bet.subject_user_id == user_id,
    ensures
        r is Err,
        reliable ==> after == before,
{
    if r is Ok {
        lemma_first_where_sound(before.users, |u: User| u.id == user_id);
    }
}

/// A device that joins a market again gets back the user of its first join,
/// with the identifier, display name and avatar of that time, whatever it
/// sends now; and joining again changes nothing.
pub proof fn lemma_rejoin_returns_first_user(
    start: Ledger,
    invite_code: String,
    device_id: String,
    first_name: String,
    first_avatar: String,
    first_id: u128,
    first_time: i64,
    first: DbResult<(Market, User)>,
    joined: Ledger,
    later_name: String,
    later_avatar: String,
    later_id: u128,
    later_time: i64,
    later: DbResult<(Market, User)>,
    end: Ledger,
)
    requires
        join_outcome(
            start,
            true,
            invite_code,
            device_id,
            first_name,
            first_avatar,
            first_id,
            first_time,
            first,
            joined,
        ),
        first is Ok,
        join_outcome(
            joined,
            true,
            invite_code,
            device_id,
            later_name,
            later_avatar,
            later_id,
            later_time,
            later,
            end,
        ),
    ensures
        later == first,
        end == joined,
{
    let pair = first->Ok_0;
    let market = pair.0;
    let user = pair.1;
    if start.find_user_by_device(market.id, device_id@) != Some(user) {
        let same_device = |u: User| u.market_id == market.id && u.device_id@ == device_id@;
        lemma_first_where_sound(start.users, same_device);
        assert(start.find_user_by_device(market.id, device_id@) is None);
        let users = start.users.push(user);
        assert forall|i: int| 0 <= i < start.users.len() implies !same_device(
            #[trigger] users[i],
        ) by {
            assert(users[i] == start.users[i]);
        }
        lemma_first_where_found(users, same_device, start.users.len() as int);
    }
}

/// A resolved bet is final: it takes no further wager, it cannot be
/// resolved again, and an approval leaves it as it is.
pub proof fn lemma_resolved_bets_are_final(
    before: Ledger,
    reliable: bool,
    bet_id: u128,
    user_id: u128,
    side: Side,
    amount: i64,
    wager_id: u128,
    now: i64,
    wagered: DbResult<Wager>,
    after_wager: Ledger,
    resolved: DbResult<Vec<(u128, i64)>>,
    after_resolution: Ledger,
    approved: DbResult<Bet>,
    after_approval: Ledger,
)
    requires
        before.find_bet(bet_id) matches Some(bet) && (bet.status == BetStatus::ResolvedYes
            || bet.status == BetStatus::ResolvedNo),
        wager_outcome(
            before,
            reliable,
            bet_id,
            user_id,
            side,
            amount,
            wager_id,
            now,
            wagered,
            after_wager,
        ),
        resolution_outcome(
            before,
            reliable,
            bet_id,
            user_id,
            side,
            now,
            resolved,
            after_resolution,
        ),
        approval_outcome(before, reliable, bet_id, user_id, approved, after_approval),
    ensures
        wagered is Err,
        resolved is Err,
        after_approval == before,
        approved matches Ok(bet) ==> Some(bet) == before.find_bet(bet_id),
{
}

/// A market never moves back to an earlier stage of its life: a change of
/// status that succeeds leaves the market at the stage that was asked for,
/// and that stage is not before the one it was at.
pub proof fn lemma_markets_move_forward(
    before: Ledger,
    reliable: bool,
    market_id: u128,
    admin_id: u128,
    target: MarketStatus,
    r: DbResult<()>,
    after: Ledger,
)
    requires
        transition_outcome(before, reliable, market_id, admin_id, target, r, after),
        r is Ok,
    ensures
        before.find_market(market_id) matches Some(market) && stage(market.status) <= stage(target)
            && after.find_market(market_id) == Some(market_with_status(market, target)),
{
    let change = |m: Market|
        if m.id == market_id {
            market_with_status(m, target)
        } else {
            m
        };
    lemma_first_where_map(before.markets, |m: Market| m.id == market_id, change);
    lemma_first_where_sound(before.markets, |m: Market| m.id == market_id);
}

} // verus!
