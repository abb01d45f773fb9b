//! What each operation decides, as functions of the rows it has read and of
//! what the host supplied: identifiers and the time.
//!
//! A plan is checked in full before anything is written, so the store is
//! only ever handed rows that follow from a valid request.

use vstd::prelude::*;
use vstd::string::*;
use crate::db::error::{DbError, DbResult};
use crate::db::ledger::bet_with_status;
use crate::domain::models::{
    Bet, BetStatus, Market, MarketStatus, Probability, ProbabilityPoint, Side, User, Wager,
};
use crate::domain::odds::odds_label_valid;
use crate::domain::parimutuel::{
    calculate_payouts, calculate_potential_payout, calculate_probability, is_settleable,
    parse_initial_odds, payouts_of, probability_of, settleable,
};
use crate::domain::rules::{
    creation_rejection, resolution_rejection, validate_bet_creation, validate_bet_resolution,
    validate_wager, wager_rejection, RuleError,
};

verus! {

/// The number of milliseconds in an hour.
pub const MILLIS_PER_HOUR: i64 = 3_600_000;

/// Parameters for creating a new market.
#[derive(Debug)]
pub struct CreateMarketParams {
    pub name: String,
    pub admin_device_id: String,
    pub admin_name: String,
    pub admin_avatar: String,
    pub starting_balance: i64,
    pub duration_hours: i64,
    pub custom_invite_code: Option<String>,
}

/// When a market that opens at `opens_at` closes.
pub open spec fn closing_time_of(opens_at: i64, duration_hours: i64) -> int {
    opens_at + duration_hours * MILLIS_PER_HOUR
}

/// When a market that opens at `opens_at` closes, if that time can be
/// represented.
pub fn closing_time(opens_at: i64, duration_hours: i64) -> (r: Option<i64>)
    ensures
        r == (if i64::MIN <= closing_time_of(opens_at, duration_hours) <= i64::MAX {
            Some(closing_time_of(opens_at, duration_hours) as i64)
        } else {
            None
        }),
{
    let closes: i128 = opens_at as i128 + duration_hours as i128 * 3_600_000;
    if closes < i64::MIN as i128 || closes > i64::MAX as i128 {
        None
    } else {
        Some(closes as i64)
    }
}

/// The market that `params` describe, in draft.
pub open spec fn drafted_market(
    params: CreateMarketParams,
    market_id: u128,
    admin_id: u128,
    invite_code: String,
    now: i64,
    closes_at: i64,
) -> Market {
    Market {
        id: market_id,
        name: params.name,
        status: MarketStatus::Draft,
        created_by: admin_id,
        opens_at: now,
        closes_at: closes_at,
        starting_balance: params.starting_balance,
        invite_code: invite_code,
        created_at: now,
    }
}

/// The admin of the market that `params` describe.
pub open spec fn founding_admin(
    params: CreateMarketParams,
    market_id: u128,
    admin_id: u128,
    now: i64,
) -> User {
    User {
        id: admin_id,
        market_id: market_id,
        device_id: params.admin_device_id,
        display_name: params.admin_name,
        avatar: params.admin_avatar,
        balance: params.starting_balance,
        is_admin: true,
        joined_at: now,
    }
}

/// Builds a market in draft and its admin, who holds the starting balance.
pub fn new_market(
    params: CreateMarketParams,
    market_id: u128,
    admin_id: u128,
    invite_code: String,
    now: i64,
    closes_at: i64,
) -> (r: (Market, User))
    ensures
        r.0 == drafted_market(params, market_id, admin_id, invite_code, now, closes_at),
        r.1 == founding_admin(params, market_id, admin_id, now),
{
    let market = Market {
        id: market_id,
        name: params.name,
        status: MarketStatus::Draft,
        created_by: admin_id,
        opens_at: now,
        closes_at,
        starting_balance: params.starting_balance,
        invite_code,
        created_at: now,
    };
    let admin = User {
        id: admin_id,
        market_id,
        device_id: params.admin_device_id,
        display_name: params.admin_name,
        avatar: params.admin_avatar,
        balance: params.starting_balance,
        is_admin: true,
        joined_at: now,
    };
    (market, admin)
}

/// The user that joins `market` from a device that is new to it.
pub open spec fn joining_member(
    market: Market,
    user_id: u128,
    device_id: String,
    display_name: String,
    avatar: String,
    now: i64,
) -> User {
    User {
        id: user_id,
        market_id: market.id,
        device_id: device_id,
        display_name: display_name,
        avatar: avatar,
        balance: market.starting_balance,
        is_admin: false,
        joined_at: now,
    }
}

/// Builds the user that joins `market` from a device that is new to it: no
/// admin, with the market's starting balance.
pub fn new_member(
    market: &Market,
    user_id: u128,
    device_id: String,
    display_name: String,
    avatar: String,
    now: i64,
) -> (r: User)
    ensures
        r == joining_member(*market, user_id, device_id, display_name, avatar, now),
{
    User {
        id: user_id,
        market_id: market.id,
        device_id,
        display_name,
        avatar,
        balance: market.starting_balance,
        is_admin: false,
        joined_at: now,
    }
}

/// What the creation of a bet writes: the bet, the creator's opening wager,
/// and the creator's balance after it.
#[derive(Debug)]
pub struct BetOpening {
    pub bet: Bet,
    pub wager: Wager,
    pub balance: i64,
}

/// The message for an opening-odds label that is malformed.
pub open spec fn invalid_odds_text() -> Seq<char> {
    "Invalid odds format"@
}

/// The bet that a valid request opens: active at once, with the whole
/// opening wager in the YES pool whatever the label says.
pub open spec fn opened_bet(
    market: Market,
    creator: User,
    subject_user_id: u128,
    description: String,
    initial_odds: String,
    opening_wager: i64,
    hide_from_subject: bool,
    bet_id: u128,
    now: i64,
) -> Bet {
    Bet {
        id: bet_id,
        market_id: market.id,
        subject_user_id: subject_user_id,
        created_by: creator.id,
        description: description,
        initial_odds: initial_odds,
        status: BetStatus::Active,
        yes_pool: opening_wager,
        no_pool: 0,
        hide_from_subject: hide_from_subject,
        created_at: now,
        resolved_at: None,
    }
}

/// The creator's opening wager: on YES, for the whole opening amount.
pub open spec fn opening_wager_record(
    creator: User,
    opening_wager: i64,
    bet_id: u128,
    wager_id: u128,
    now: i64,
) -> Wager {
    Wager {
        id: wager_id,
        bet_id: bet_id,
        user_id: creator.id,
        side: Side::Yes,
        amount: opening_wager,
        placed_at: now,
        yes_pool_after: opening_wager,
        no_pool_after: 0,
        probability_after: probability_of(opening_wager as int, 0),
    }
}

/// Why a bet cannot be created, if it cannot: the first rule that the
/// request breaks, or else its malformed label.
pub open spec fn bet_rejection(
    market: Market,
    creator: User,
    initial_odds: Seq<char>,
    opening_wager: i64,
) -> Option<Seq<char>> {
    if creation_rejection(market, creator, opening_wager) is Some {
        creation_rejection(market, creator, opening_wager)
    } else if !odds_label_valid(initial_odds) {
        Some(invalid_odds_text())
    } else {
        None
    }
}

/// Decides the creation of a bet.
///
/// The creator may be the subject: only wagering on a bet about oneself is
/// forbidden.
pub fn plan_bet(
    market: &Market,
    creator: &User,
    subject_user_id: u128,
    description: String,
    initial_odds: String,
    opening_wager: i64,
    hide_from_subject: bool,
    bet_id: u128,
    wager_id: u128,
    now: i64,
) -> (r: DbResult<BetOpening>)
    ensures
        match r {
            Ok(opening) => {
                &&& bet_rejection(*market, *creator, initial_odds@, opening_wager) is None
                &&& opening.bet == opened_bet(
                    *market,
                    *creator,
                    subject_user_id,
                    description,
                    initial_odds,
                    opening_wager,
                    hide_from_subject,
                    bet_id,
                    now,
                )
                &&& opening.wager == opening_wager_record(
                    *creator,
                    opening_wager,
                    bet_id,
                    wager_id,
                    now,
                )
                &&& opening.balance == creator.balance - opening_wager
                &&& opening.balance >= 0
            },
            Err(e) => e matches DbError::Constraint(text) && bet_rejection(
                *market,
                *creator,
                initial_odds@,
                opening_wager,
            ) == Some(text@),
        },
{
    match validate_bet_creation(market, creator, subject_user_id, opening_wager) {
        Ok(()) => {},
        Err(rule) => {
            return Err(DbError::violation(&rule));
        },
    }
    let (yes_pool, no_pool): (i64, i64) = match parse_initial_odds(
        initial_odds.as_str(),
        opening_wager,
    ) {
        Some(pools) => pools,
        None => {
            return Err(DbError::Constraint("Invalid odds format".to_string()));
        },
    };
    let bet = Bet {
        id: bet_id,
        market_id: market.id,
        subject_user_id,
        created_by: creator.id,
        description,
        initial_odds,
        status: BetStatus::Active,
        yes_pool,
        no_pool,
        hide_from_subject,
        created_at: now,
        resolved_at: None,
    };
    let wager = Wager {
        id: wager_id,
        bet_id,
        user_id: creator.id,
        side: Side::Yes,
        amount: opening_wager,
        placed_at: now,
        yes_pool_after: yes_pool,
        no_pool_after: no_pool,
        probability_after: calculate_probability(yes_pool, no_pool),
    };
    Ok(BetOpening { bet, wager, balance: creator.balance - opening_wager })
}

/// What the placing of a wager writes: the wager with its snapshot, the
/// bet's pools, and the user's balance after it.
#[derive(Debug, Clone, Copy, PartialEq, Eq, Structural)]
pub struct WagerPlacement {
    pub wager: Wager,
    pub yes_pool: i64,
    pub no_pool: i64,
    pub balance: i64,
}

/// The pools of `bet` can take `amount` more coins.
pub open spec fn pools_can_take(bet: Bet, amount: i64) -> bool {
    0 <= bet.yes_pool && 0 <= bet.no_pool && bet.yes_pool + bet.no_pool + amount <= i64::MAX
}

/// What placing a valid wager writes.
pub open spec fn wager_placement(
    bet: Bet,
    user: User,
    side: Side,
    amount: i64,
    wager_id: u128,
    now: i64,
) -> WagerPlacement {
    let yes_pool = if side == Side::Yes {
        (bet.yes_pool + amount) as i64
    } else {
        bet.yes_pool
    };
    let no_pool = if side == Side::No {
        (bet.no_pool + amount) as i64
    } else {
        bet.no_pool
    };
    WagerPlacement {
        wager: Wager {
            id: wager_id,
            bet_id: bet.id,
            user_id: user.id,
            side: side,
            amount: amount,
            placed_at: now,
            yes_pool_after: yes_pool,
            no_pool_after: no_pool,
            probability_after: probability_of(yes_pool as int, no_pool as int),
        },
        yes_pool: yes_pool,
        no_pool: no_pool,
        balance: (user.balance - amount) as i64,
    }
}

/// Decides the placing of a wager.
///
/// A request that breaks a rule is refused with the rule's message. A valid
/// request on a bet whose pools cannot take the amount is refused as an
/// internal error.
pub fn plan_wager(
    market: &Market,
    bet: &Bet,
    user: &User,
    side: Side,
    amount: i64,
    wager_id: u128,
    now: i64,
) -> (r: DbResult<WagerPlacement>)
    ensures
        match r {
            Ok(placement) => {
                &&& wager_rejection(*market, *bet, *user, amount) is None
                &&& pools_can_take(*bet, amount)
                &&& placement == wager_placement(*bet, *user, side, amount, wager_id, now)
                &&& placement.balance >= 0
                &&& placement.wager.probability_after.wf()
            },
            Err(e) => match wager_rejection(*market, *bet, *user, amount) {
                Some(text) => e matches DbError::Constraint(t) && t@ == text,
                None => !pools_can_take(*bet, amount) && e is Internal,
            },
        },
{
    match validate_wager(market, bet, user, amount) {
        Ok(()) => {},
        Err(rule) => {
            return Err(DbError::violation(&rule));
        },
    }
    if bet.yes_pool < 0 || bet.no_pool < 0 || bet.yes_pool as i128 + bet.no_pool as i128
        + amount as i128 > i64::MAX as i128 {
        return Err(DbError::Internal("the pools of the bet are out of range".to_string()));
    }
    let (yes_pool_after, no_pool_after, _) = calculate_potential_payout(
        bet.yes_pool,
        bet.no_pool,
        side,
        amount,
    );
    let probability_after: Probability = calculate_probability(yes_pool_after, no_pool_after);
    let wager = Wager {
        id: wager_id,
        bet_id: bet.id,
        user_id: user.id,
        side,
        amount,
        placed_at: now,
        yes_pool_after,
        no_pool_after,
        probability_after,
    };
    Ok(
        WagerPlacement {
            wager,
            yes_pool: yes_pool_after,
            no_pool: no_pool_after,
            balance: user.balance - amount,
        },
    )
}

/// The status that resolving with `outcome` gives a bet.
pub open spec fn resolved_status(outcome: Side) -> BetStatus {
    match outcome {
        Side::Yes => BetStatus::ResolvedYes,
        Side::No => BetStatus::ResolvedNo,
    }
}

/// What the resolution of a bet writes: the bet's new status, and one
/// payout for each winner.
#[derive(Debug)]
pub struct Settlement {
    pub status: BetStatus,
    pub payouts: Vec<(u128, i64)>,
}

/// Decides the resolution of a bet from the bet and all its wagers.
///
/// A request that breaks a rule is refused with the rule's message. A valid
/// request on a bet whose wagers and pools do not fit together is refused
/// as an internal error.
pub fn plan_resolution(
    market: &Market,
    bet: &Bet,
    admin: &User,
    outcome: Side,
    wagers: &[Wager],
    now: i64,
) -> (r: DbResult<Settlement>)
    ensures
        match r {
            Ok(settlement) => {
                &&& resolution_rejection(*bet, *admin) is None
                &&& settlement.status == resolved_status(outcome)
                &&& settleable(bet_with_status(*bet, settlement.status, Some(now)), wagers@)
                &&& settlement.payouts@ == payouts_of(
                    bet_with_status(*bet, settlement.status, Some(now)),
                    wagers@,
                )
            },
            Err(e) => match resolution_rejection(*bet, *admin) {
                Some(text) => e matches DbError::Constraint(t) && t@ == text,
                None => !settleable(
                    bet_with_status(*bet, resolved_status(outcome), Some(now)),
                    wagers@,
                ) && e is Internal,
            },
        },
{
    match validate_bet_resolution(market, bet, admin) {
        Ok(()) => {},
        Err(rule) => {
            return Err(DbError::violation(&rule));
        },
    }
    let status: BetStatus = match outcome {
        Side::Yes => BetStatus::ResolvedYes,
        Side::No => BetStatus::ResolvedNo,
    };
    let mut resolved: Bet = bet.clone();
    resolved.status = status;
    resolved.resolved_at = Some(now);
    if !is_settleable(&resolved, wagers) {
        return Err(
            DbError::Internal("the wagers on the bet do not fit its pools".to_string()),
        );
    }
    let payouts: Vec<(u128, i64)> = calculate_payouts(&resolved, wagers);
    Ok(Settlement { status, payouts })
}

/// The balance of `user` after a payout, if it can be represented.
pub fn credited_balance(user: &User, payout: i64) -> (r: Option<i64>)
    ensures
        r == (if i64::MIN <= user.balance + payout <= i64::MAX {
            Some((user.balance + payout) as i64)
        } else {
            None
        }),
{
    user.balance.checked_add(payout)
}

/// The order of the stages of a market's life.
pub open spec fn stage(status: MarketStatus) -> int {
    match status {
        MarketStatus::Draft => 0,
        MarketStatus::Open => 1,
        MarketStatus::Closed => 2,
        MarketStatus::Resolved => 3,
    }
}

/// The message for an action that only an admin may take.
pub open spec fn admin_only_text() -> Seq<char> {
    "Admin only"@
}

/// Why `user` cannot move `market` to `target`, if they cannot: they are
/// no admin, or the market is already past that stage.
pub open spec fn transition_rejection(market: Market, user: User, target: MarketStatus) -> Option<
    Seq<char>,
> {
    if !user.is_admin {
        Some(admin_only_text())
    } else if stage(target) < stage(market.status) {
        Some(RuleError::InvalidMarketStatus.text())
    } else {
        None
    }
}

fn stage_of(status: MarketStatus) -> (r: u8)
    ensures
        r == stage(status),
{
    match status {
        MarketStatus::Draft => 0,
        MarketStatus::Open => 1,
        MarketStatus::Closed => 2,
        MarketStatus::Resolved => 3,
    }
}

/// The failure that reports that an action is for admins only.
pub fn admin_only() -> (e: DbError)
    ensures
        e matches DbError::Constraint(text) && text@ == admin_only_text(),
{
    DbError::Constraint("Admin only".to_string())
}

/// Decides a change of a market's status: by an admin, and never back to
/// an earlier stage.
pub fn plan_transition(market: &Market, user: &User, target: MarketStatus) -> (r: DbResult<()>)
    ensures
        match r {
            Ok(()) => transition_rejection(*market, *user, target) is None,
            Err(e) => e matches DbError::Constraint(text) && transition_rejection(
                *market,
                *user,
                target,
            ) == Some(text@),
        },
{
    if !user.is_admin {
        return Err(admin_only());
    }
    if stage_of(target) < stage_of(market.status) {
        return Err(DbError::violation(&RuleError::InvalidMarketStatus));
    }
    Ok(())
}

/// The chart point of a wager: when it was placed, and the YES probability
/// right after it.
pub open spec fn chart_point(wager: Wager) -> ProbabilityPoint {
    ProbabilityPoint { timestamp: wager.placed_at, yes_probability: wager.probability_after }
}

/// The probability-over-time chart of a bet from its wagers in the order
/// in which they were placed.
pub fn probability_chart(wagers: &[Wager]) -> (points: Vec<ProbabilityPoint>)
    ensures
        points@ == wagers@.map_values(|w: Wager| chart_point(w)),
{
    let mut points: Vec<ProbabilityPoint> = Vec::new();
    let mut i: usize = 0;
    while i < wagers.len()
        invariant
            i <= wagers.len(),
            points.len() == i,
            forall|j: int| 0 <= j < i ==> (#[trigger] points[j]) == chart_point(wagers[j]),
        decreases wagers.len() - i,
    {
        points.push(
            ProbabilityPoint {
                timestamp: wagers[i].placed_at,
                yes_probability: wagers[i].probability_after,
            },
        );
        i += 1;
    }
    assert(points@ =~= wagers@.map_values(|w: Wager| chart_point(w)));
    points
}

} // verus!
