//! Game rules: the preconditions of every state transition, as pure checks.
//!
//! Each check reports the first rule that is broken, in a fixed order, and
//! never reads or changes anything but its arguments.

use vstd::prelude::*;
use vstd::string::*;
use crate::domain::models::{Bet, BetStatus, Market, MarketStatus, User};
use crate::text::{decimal, push_decimal};

verus! {

/// A broken game rule.
#[derive(Debug)]
pub enum RuleError {
    /// Market is not open for betting.
    MarketNotOpen,
    /// Bet is not active.
    BetNotActive,
    /// The user has fewer coins than the wager needs.
    InsufficientBalance { needed: i64, available: i64 },
    /// Cannot bet on bets about yourself.
    CannotBetOnSelf,
    /// Only admin can perform this action.
    AdminOnly,
    /// Invalid wager amount, with the reason.
    InvalidAmount(String),
    /// Bet already resolved.
    AlreadyResolved,
    /// Market not in correct status for this action.
    InvalidMarketStatus,
}

impl RuleError {
    /// The message of the broken rule, as a user reads it.
    pub open spec fn text(self) -> Seq<char> {
        match self {
            RuleError::MarketNotOpen => "Market is not open for betting"@,
            RuleError::BetNotActive => "Bet is not active"@,
            RuleError::InsufficientBalance { needed, available } => "Insufficient balance: need "@
                + decimal(needed as int) + ", have "@ + decimal(available as int),
            RuleError::CannotBetOnSelf => "Cannot bet on bets about yourself"@,
            RuleError::AdminOnly => "Only admin can perform this action"@,
            RuleError::InvalidAmount(reason) => "Invalid wager amount: "@ + reason@,
            RuleError::AlreadyResolved => "Bet already resolved"@,
            RuleError::InvalidMarketStatus => "Market not in correct status for this action"@,
        }
    }

    /// Renders the broken rule for the user, with the numbers that explain
    /// it where there are any.
    pub fn message(&self) -> (r: String)
        ensures
            r@ == self.text(),
    {
        match self {
            RuleError::MarketNotOpen => "Market is not open for betting".to_string(),
            RuleError::BetNotActive => "Bet is not active".to_string(),
            RuleError::InsufficientBalance { needed, available } => {
                let mut out: String = "Insufficient balance: need ".to_string();
                push_decimal(&mut out, *needed);
                out.append(", have ");
                push_decimal(&mut out, *available);
                out
            },
            RuleError::CannotBetOnSelf => "Cannot bet on bets about yourself".to_string(),
            RuleError::AdminOnly => "Only admin can perform this action".to_string(),
            RuleError::InvalidAmount(reason) => {
                let mut out: String = "Invalid wager amount: ".to_string();
                out.append(reason.as_str());
                out
            },
            RuleError::AlreadyResolved => "Bet already resolved".to_string(),
            RuleError::InvalidMarketStatus => "Market not in correct status for this action".to_string(),
        }
    }
}

/// The reason given for a wager that is not positive.
pub open spec fn amount_reason() -> Seq<char> {
    "Amount must be positive"@
}

/// The reason given for an opening wager that is not positive.
pub open spec fn opening_reason() -> Seq<char> {
    "Opening wager must be positive"@
}

/// The message of an amount that is refused for the given reason.
pub open spec fn invalid_amount_text(reason: Seq<char>) -> Seq<char> {
    "Invalid wager amount: "@ + reason
}

/// The message of the first rule that a wager breaks, if it breaks one.
pub open spec fn wager_rejection(market: Market, bet: Bet, user: User, amount: i64) -> Option<
    Seq<char>,
> {
    if market.status != MarketStatus::Open {
        Some(RuleError::MarketNotOpen.text())
    } else if bet.status != BetStatus::Active {
        Some(RuleError::BetNotActive.text())
    } else if user.balance < amount {
        Some(RuleError::InsufficientBalance { needed: amount, available: user.balance }.text())
    } else if amount <= 0 {
        Some(invalid_amount_text(amount_reason()))
    } else if bet.subject_user_id == user.id {
        Some(RuleError::CannotBetOnSelf.text())
    } else {
        None
    }
}

/// The message of the first rule that the creation of a bet breaks, if it
/// breaks one.
pub open spec fn creation_rejection(market: Market, user: User, opening_wager: i64) -> Option<
    Seq<char>,
> {
    if market.status != MarketStatus::Draft && market.status != MarketStatus::Open {
        Some(RuleError::InvalidMarketStatus.text())
    } else if user.balance < opening_wager {
        Some(
            RuleError::InsufficientBalance { needed: opening_wager, available: user.balance }.text(),
        )
    } else if opening_wager <= 0 {
        Some(invalid_amount_text(opening_reason()))
    } else {
        None
    }
}

/// The message of the rule that an approval breaks, if it breaks one.
pub open spec fn approval_rejection(user: User) -> Option<Seq<char>> {
    if !user.is_admin {
        Some(RuleError::AdminOnly.text())
    } else {
        None
    }
}

/// The message of the first rule that a resolution breaks, if it breaks
/// one.
pub open spec fn resolution_rejection(bet: Bet, user: User) -> Option<Seq<char>> {
    if !user.is_admin {
        Some(RuleError::AdminOnly.text())
    } else if bet.status == BetStatus::ResolvedYes || bet.status == BetStatus::ResolvedNo {
        Some(RuleError::AlreadyResolved.text())
    } else if bet.status != BetStatus::Active {
        Some(RuleError::BetNotActive.text())
    } else {
        None
    }
}

/// `user` may wager `amount` on `bet` in `market`.
pub open spec fn wager_allowed(market: Market, bet: Bet, user: User, amount: i64) -> bool {
    &&& market.status == MarketStatus::Open
    &&& bet.status == BetStatus::Active
    &&& user.balance >= amount
    &&& amount > 0
    &&& bet.subject_user_id != user.id
}

/// `user` may create a bet in `market` with the given opening wager.
pub open spec fn creation_allowed(market: Market, user: User, opening_wager: i64) -> bool {
    &&& (market.status == MarketStatus::Draft || market.status == MarketStatus::Open)
    &&& user.balance >= opening_wager
    &&& opening_wager > 0
}

/// `user` may resolve `bet`.
pub open spec fn resolution_allowed(bet: Bet, user: User) -> bool {
    user.is_admin && bet.status == BetStatus::Active
}

/// Validate that a user can place a wager.
///
/// The rules are checked in this order: the market is open, the bet is
/// active, the balance covers the amount, the amount is positive, and the
/// bet is not about the user. The last rule holds for every role.
pub fn validate_wager(market: &Market, bet: &Bet, user: &User, amount: i64) -> (r: Result<
    (),
    RuleError,
>)
    ensures
        r is Ok <==> wager_allowed(*market, *bet, *user, amount),
        r is Ok <==> wager_rejection(*market, *bet, *user, amount) is None,
        r matches Err(e) ==> wager_rejection(*market, *bet, *user, amount) == Some(e.text()),
        bet.subject_user_id == user.id ==> r is Err,
        market.status != MarketStatus::Open ==> r == Err::<(), RuleError>(RuleError::MarketNotOpen),
        market.status == MarketStatus::Open && bet.status != BetStatus::Active ==> r == Err::<
            (),
            RuleError,
        >(RuleError::BetNotActive),
        market.status == MarketStatus::Open && bet.status == BetStatus::Active && user.balance
            < amount ==> r == Err::<(), RuleError>(
            RuleError::InsufficientBalance { needed: amount, available: user.balance },
        ),
        market.status == MarketStatus::Open && bet.status == BetStatus::Active && user.balance
            >= amount && amount <= 0 ==> (r matches Err(RuleError::InvalidAmount(reason))
            && reason@ == amount_reason()),
        market.status == MarketStatus::Open && bet.status == BetStatus::Active && user.balance
            >= amount && amount > 0 && bet.subject_user_id == user.id ==> r == Err::<
            (),
            RuleError,
        >(RuleError::CannotBetOnSelf),
{
    if market.status != MarketStatus::Open {
        return Err(RuleError::MarketNotOpen);
    }
    if bet.status != BetStatus::Active {
        return Err(RuleError::BetNotActive);
    }
    if user.balance < amount {
        return Err(RuleError::InsufficientBalance { needed: amount, available: user.balance });
    }
    if amount <= 0 {
        return Err(RuleError::InvalidAmount("Amount must be positive".to_string()));
    }
    if bet.subject_user_id == user.id {
        return Err(RuleError::CannotBetOnSelf);
    }
    Ok(())
}

/// Validate that a user can create a bet.
///
/// The market must be in draft or open, the balance must cover the opening
/// wager, and the opening wager must be positive, checked in this order. The
/// subject is not examined: a user may create a bet about themselves.
pub fn validate_bet_creation(
    market: &Market,
    user: &User,
    _subject_user_id: u128,
    opening_wager: i64,
) -> (r: Result<(), RuleError>)
    ensures
        r is Ok <==> creation_allowed(*market, *user, opening_wager),
        r is Ok <==> creation_rejection(*market, *user, opening_wager) is None,
        r matches Err(e) ==> creation_rejection(*market, *user, opening_wager) == Some(e.text()),
        market.status != MarketStatus::Draft && market.status != MarketStatus::Open ==> r == Err::<
            (),
            RuleError,
        >(RuleError::InvalidMarketStatus),
        (market.status == MarketStatus::Draft || market.status == MarketStatus::Open)
            && user.balance < opening_wager ==> r == Err::<(), RuleError>(
            RuleError::InsufficientBalance { needed: opening_wager, available: user.balance },
        ),
        (market.status == MarketStatus::Draft || market.status == MarketStatus::Open)
            && user.balance >= opening_wager && opening_wager <= 0 ==> (r matches Err(
            RuleError::InvalidAmount(reason),
        ) && reason@ == opening_reason()),
{
    if market.status != MarketStatus::Draft && market.status != MarketStatus::Open {
        return Err(RuleError::InvalidMarketStatus);
    }
    if user.balance < opening_wager {
        return Err(
            RuleError::InsufficientBalance { needed: opening_wager, available: user.balance },
        );
    }
    if opening_wager <= 0 {
        return Err(RuleError::InvalidAmount("Opening wager must be positive".to_string()));
    }
    Ok(())
}

/// Validate that a user can approve or reject a bet: admins only.
pub fn validate_bet_approval(user: &User) -> (r: Result<(), RuleError>)
    ensures
        r == (if user.is_admin {
            Ok::<(), RuleError>(())
        } else {
            Err::<(), RuleError>(RuleError::AdminOnly)
        }),
        r is Ok <==> approval_rejection(*user) is None,
        r matches Err(e) ==> approval_rejection(*user) == Some(e.text()),
{
    if !user.is_admin {
        return Err(RuleError::AdminOnly);
    }
    Ok(())
}

/// Validate that a bet can be resolved: by an admin, and only while active.
///
/// The market's status is not examined: a bet may be resolved while its
/// market is still open.
pub fn validate_bet_resolution(_market: &Market, bet: &Bet, user: &User) -> (r: Result<
    (),
    RuleError,
>)
    ensures
        r is Ok <==> resolution_allowed(*bet, *user),
        r is Ok <==> resolution_rejection(*bet, *user) is None,
        r matches Err(e) ==> resolution_rejection(*bet, *user) == Some(e.text()),
        !user.is_admin ==> r == Err::<(), RuleError>(RuleError::AdminOnly),
        user.is_admin && (bet.status == BetStatus::ResolvedYes || bet.status
            == BetStatus::ResolvedNo) ==> r == Err::<(), RuleError>(RuleError::AlreadyResolved),
        user.is_admin && (bet.status == BetStatus::Pending || bet.status == BetStatus::Challenged)
            ==> r == Err::<(), RuleError>(RuleError::BetNotActive),
{
    if !user.is_admin {
        return Err(RuleError::AdminOnly);
    }
    if bet.status != BetStatus::Active {
        if bet.status == BetStatus::ResolvedYes || bet.status == BetStatus::ResolvedNo {
            return Err(RuleError::AlreadyResolved);
        }
        return Err(RuleError::BetNotActive);
    }
    Ok(())
}

} // verus!
