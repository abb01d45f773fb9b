//! The operations on bets: creating, approving, wagering and resolving.

use vstd::prelude::*;
use vstd::string::*;
use crate::db::error::{DbError, DbResult};
use crate::db::interface::Database;
use crate::db::ledger::{bet_with_status, Ledger};
use crate::domain::models::{Bet, BetStatus, Market, Side, User, Wager};
use crate::domain::parimutuel::{payouts_of, settleable};
use crate::domain::rules::{
    approval_rejection, resolution_rejection, validate_bet_approval, wager_rejection,
};
use crate::host::{fresh_id, now_millis};
use crate::service::engine::CazinoService;
use crate::service::plans::{
    bet_rejection, credited_balance, opened_bet, opening_wager_record, plan_bet,
    plan_resolution, plan_wager, pools_can_take, resolved_status, wager_placement, BetOpening,
    Settlement, WagerPlacement,
};

verus! {

/// What the creation of a bet does, for the identifiers and time that the
/// host supplied: it adds the bet, active, and the creator's opening wager
/// on YES, and takes the opening wager from the creator's balance.
pub open spec fn bet_creation_outcome(
    before: Ledger,
    reliable: bool,
    market_id: u128,
    creator_id: u128,
    subject_user_id: u128,
    description: String,
    initial_odds: String,
    opening_wager: i64,
    hide_from_subject: bool,
    bet_id: u128,
    wager_id: u128,
    now: i64,
    r: DbResult<Bet>,
    after: Ledger,
) -> bool {
    &&& r matches Ok(bet) ==> {
        &&& before.find_market(market_id) matches Some(market)
        &&& before.find_user(creator_id) matches Some(creator)
        &&& bet_rejection(market, creator, initial_odds@, opening_wager) is None
        &&& bet == opened_bet(
            market,
            creator,
            subject_user_id,
            description,
            initial_odds,
            opening_wager,
            hide_from_subject,
            bet_id,
            now,
        )
        &&& before.find_bet(bet_id) is None
        &&& before.find_wager(wager_id) is None
        &&& after == before.with_bet(bet).with_wager(
            opening_wager_record(creator, opening_wager, bet_id, wager_id, now),
        ).with_balance(creator_id, (creator.balance - opening_wager) as i64)
    }
    &&& r is Err ==> (after == before || !reliable)
    &&& reliable ==> match before.find_market(market_id) {
        None => r matches Err(e) && e is NotFound,
        Some(market) => match before.find_user(creator_id) {
            None => r matches Err(e) && e is NotFound,
            Some(creator) => match bet_rejection(market, creator, initial_odds@, opening_wager) {
                Some(reason) => r matches Err(DbError::Constraint(text)) && text@ == reason,
                None => (r is Ok <==> before.find_bet(bet_id) is None && before.find_wager(
                    wager_id,
                ) is None),
            },
        },
    }
}

/// What an approval does: it is refused for a user who is no admin; it
/// makes a pending bet active; and it leaves any other bet as it is.
pub open spec fn approval_outcome(
    before: Ledger,
    reliable: bool,
    bet_id: u128,
    admin_id: u128,
    r: DbResult<Bet>,
    after: Ledger,
) -> bool {
    &&& r matches Ok(approved) ==> {
        &&& before.find_user(admin_id) matches Some(admin)
        &&& admin.is_admin
        &&& before.find_bet(bet_id) matches Some(bet)
        &&& if bet.status == BetStatus::Pending {
            approved == bet_with_status(bet, BetStatus::Active, None) && after
                == before.with_bet_status(bet_id, BetStatus::Active, 0)
        } else {
            approved == bet && after == before
        }
    }
    &&& r is Err ==> after == before
    &&& reliable ==> match before.find_user(admin_id) {
        None => r matches Err(e) && e is NotFound,
        Some(admin) => match approval_rejection(admin) {
            Some(reason) => r matches Err(DbError::Constraint(text)) && text@ == reason,
            None => match before.find_bet(bet_id) {
                None => r matches Err(e) && e is NotFound,
                Some(_) => r is Ok,
            },
        },
    }
}

/// What placing a wager does, for the identifier and time that the host
/// supplied: it adds the wager with the pools and the probability right
/// after it, sets the pools of the bet, and takes the amount from the
/// user's balance.
pub open spec fn wager_outcome(
    before: Ledger,
    reliable: bool,
    bet_id: u128,
    user_id: u128,
    side: Side,
    amount: i64,
    wager_id: u128,
    now: i64,
    r: DbResult<Wager>,
    after: Ledger,
) -> bool {
    &&& r matches Ok(wager) ==> {
        &&& before.find_bet(bet_id) matches Some(bet)
        &&& before.find_market(bet.market_id) matches Some(market)
        &&& before.find_user(user_id) matches Some(user)
        &&& wager_rejection(market, bet, user, amount) is None
        &&& pools_can_take(bet, amount)
        &&& before.find_wager(wager_id) is None
        &&& wager == wager_placement(bet, user, side, amount, wager_id, now).wager
        &&& after == before.with_wager(wager).with_pools(
            bet_id,
            wager.yes_pool_after,
            wager.no_pool_after,
        ).with_balance(user_id, (user.balance - amount) as i64)
    }
    &&& r is Err ==> (after == before || !reliable)
    &&& reliable ==> match before.find_bet(bet_id) {
        None => r matches Err(e) && e is NotFound,
        Some(bet) => match before.find_market(bet.market_id) {
            None => r matches Err(e) && e is NotFound,
            Some(market) => match before.find_user(user_id) {
                None => r matches Err(e) && e is NotFound,
                Some(user) => match wager_rejection(market, bet, user, amount) {
                    Some(reason) => r matches Err(DbError::Constraint(text)) && text@ == reason,
                    None => if !pools_can_take(bet, amount) {
                        r matches Err(e) && e is Internal
                    } else {
                        r is Ok <==> before.find_wager(wager_id) is None
                    },
                },
            },
        },
    }
}

/// Every winner exists in `base`, and their balance with their payout can
/// be represented.
pub open spec fn can_credit(base: Ledger, payouts: Seq<(u128, i64)>) -> bool {
    forall|i: int|
        0 <= i < payouts.len() ==> (base.find_user((#[trigger] payouts[i]).0) matches Some(user)
            && i64::MIN <= user.balance + payouts[i].1 <= i64::MAX)
}

/// The ledger `ledger` after each winner's balance was set to what they
/// held in `base` plus their payout.
pub open spec fn credited(ledger: Ledger, base: Ledger, payouts: Seq<(u128, i64)>) -> Ledger
    decreases payouts.len(),
{
    if payouts.len() == 0 {
        ledger
    } else {
        credited(ledger, base, payouts.drop_last()).with_balance(
            payouts.last().0,
            (base.find_user(payouts.last().0)->0.balance + payouts.last().1) as i64,
        )
    }
}

/// What the resolution of a bet does, for the time that the host supplied:
/// it sets the status of the bet and the time of its resolution, and adds
/// to each winner's balance their share of the total pool. The payouts that
/// it returns are those of the resolved bet and all its wagers.
pub open spec fn resolution_outcome(
    before: Ledger,
    reliable: bool,
    bet_id: u128,
    admin_id: u128,
    outcome: Side,
    now: i64,
    r: DbResult<Vec<(u128, i64)>>,
    after: Ledger,
) -> bool {
    let wagers = before.wagers_for_bet(bet_id);
    let status = resolved_status(outcome);
    &&& r matches Ok(payouts) ==> {
        &&& before.find_bet(bet_id) matches Some(bet)
        &&& before.find_market(bet.market_id) is Some
        &&& before.find_user(admin_id) matches Some(admin)
        &&& resolution_rejection(bet, admin) is None
        &&& settleable(bet_with_status(bet, status, Some(now)), wagers)
        &&& payouts@ == payouts_of(bet_with_status(bet, status, Some(now)), wagers)
        &&& can_credit(before, payouts@)
        &&& after == credited(before.with_bet_status(bet_id, status, now), before, payouts@)
    }
    &&& r is Err ==> (after == before || !reliable)
    &&& reliable ==> match before.find_bet(bet_id) {
        None => r matches Err(e) && e is NotFound,
        Some(bet) => match before.find_market(bet.market_id) {
            None => r matches Err(e) && e is NotFound,
            Some(_) => match before.find_user(admin_id) {
                None => r matches Err(e) && e is NotFound,
                Some(admin) => match resolution_rejection(bet, admin) {
                    Some(reason) => r matches Err(DbError::Constraint(text)) && text@ == reason,
                    None => if !settleable(bet_with_status(bet, status, Some(now)), wagers) {
                        r matches Err(e) && e is Internal
                    } else {
                        r is Ok <==> can_credit(
                            before,
                            payouts_of(bet_with_status(bet, status, Some(now)), wagers),
                        )
                    },
                },
            },
        },
    }
}

impl<D: Database> CazinoService<D> {
    /// Create a new bet with the identifiers and time that the host
    /// supplied.
    pub fn create_bet_with(
        &mut self,
        market_id: u128,
        creator_id: u128,
        subject_user_id: u128,
        description: String,
        initial_odds: String,
        opening_wager: i64,
        hide_from_subject: bool,
        bet_id: u128,
        wager_id: u128,
        now: i64,
    ) -> (r: DbResult<Bet>)
        ensures
            final(self).reliable() == old(self).reliable(),
            bet_creation_outcome(
                old(self).ledger(),
                old(self).reliable(),
                market_id,
                creator_id,
                subject_user_id,
                description,
                initial_odds,
                opening_wager,
                hide_from_subject,
                bet_id,
                wager_id,
                now,
                r,
                final(self).ledger(),
            ),
    {
        let market: Market = match self.db.get_market(market_id) {
            Ok(market) => market,
            Err(e) => {
                return Err(e);
            },
        };
        let creator: User = match self.db.get_user(creator_id) {
            Ok(creator) => creator,
            Err(e) => {
                return Err(e);
            },
        };
        let opening: BetOpening = match plan_bet(
            &market,
            &creator,
            subject_user_id,
            description,
            initial_odds,
            opening_wager,
            hide_from_subject,
            bet_id,
            wager_id,
            now,
        ) {
            Ok(opening) => opening,
            Err(e) => {
                return Err(e);
            },
        };
        if self.db.get_bet(bet_id).is_ok() {
            return Err(DbError::Internal("bet id is already in use".to_string()));
        }
        if self.db.get_wager(wager_id).is_ok() {
            return Err(DbError::Internal("wager id is already in use".to_string()));
        }
        match self.db.create_bet(opening.bet.clone()) {
            Ok(_) => {},
            Err(e) => {
                return Err(e);
            },
        }
        match self.db.create_wager(opening.wager) {
            Ok(_) => {},
            Err(e) => {
                return Err(e);
            },
        }
        match self.db.update_user_balance(creator_id, opening.balance) {
            Ok(()) => {},
            Err(e) => {
                return Err(e);
            },
        }
        Ok(opening.bet)
    }

    /// Create a new bet.
    ///
    /// The bet is active at once. The creator's opening wager goes into the
    /// YES pool in full, whatever the opening-odds label says, and is taken
    /// from the creator's balance. The creator may be the subject.
    pub fn create_bet(
        &mut self,
        market_id: u128,
        creator_id: u128,
        subject_user_id: u128,
        description: String,
        initial_odds: String,
        opening_wager: i64,
        hide_from_subject: bool,
    ) -> (r: DbResult<Bet>)
        ensures
            final(self).reliable() == old(self).reliable(),
            exists|bet_id: u128, wager_id: u128, now: i64| #[trigger]
                bet_creation_outcome(
                    old(self).ledger(),
                    old(self).reliable(),
                    market_id,
                    creator_id,
                    subject_user_id,
                    description,
                    initial_odds,
                    opening_wager,
                    hide_from_subject,
                    bet_id,
                    wager_id,
                    now,
                    r,
                    final(self).ledger(),
                ),
    {
        let bet_id: u128 = fresh_id();
        let wager_id: u128 = fresh_id();
        let now: i64 = now_millis();
        self.create_bet_with(
            market_id,
            creator_id,
            subject_user_id,
            description,
            initial_odds,
            opening_wager,
            hide_from_subject,
            bet_id,
            wager_id,
            now,
        )
    }

    /// Approve a bet: moves it from pending to active.
    pub fn approve_bet(&mut self, bet_id: u128, admin_id: u128) -> (r: DbResult<Bet>)
        ensures
            final(self).reliable() == old(self).reliable(),
            approval_outcome(
                old(self).ledger(),
                old(self).reliable(),
                bet_id,
                admin_id,
                r,
                final(self).ledger(),
            ),
    {
        let admin: User = match self.db.get_user(admin_id) {
            Ok(admin) => admin,
            Err(e) => {
                return Err(e);
            },
        };
        match validate_bet_approval(&admin) {
            Ok(()) => {},
            Err(rule) => {
                return Err(DbError::violation(&rule));
            },
        }
        let bet: Bet = match self.db.get_bet(bet_id) {
            Ok(bet) => bet,
            Err(e) => {
                return Err(e);
            },
        };
        if bet.status != BetStatus::Pending {
            return Ok(bet);
        }
        match self.db.update_bet_status(bet_id, BetStatus::Active, 0) {
            Ok(()) => {},
            Err(e) => {
                return Err(e);
            },
        }
        let mut approved: Bet = bet;
        approved.status = BetStatus::Active;
        approved.resolved_at = None;
        Ok(approved)
    }

    /// Place a wager with the identifier and time that the host supplied.
    pub fn place_wager_with(
        &mut self,
        bet_id: u128,
        user_id: u128,
        side: Side,
        amount: i64,
        wager_id: u128,
        now: i64,
    ) -> (r: DbResult<Wager>)
        ensures
            final(self).reliable() == old(self).reliable(),
            wager_outcome(
                old(self).ledger(),
                old(self).reliable(),
                bet_id,
                user_id,
                side,
                amount,
                wager_id,
                now,
                r,
                final(self).ledger(),
            ),
    {
        let bet: Bet = match self.db.get_bet(bet_id) {
            Ok(bet) => bet,
            Err(e) => {
                return Err(e);
            },
        };
        let market: Market = match self.db.get_market(bet.market_id) {
            Ok(market) => market,
            Err(e) => {
                return Err(e);
            },
        };
        let user: User = match self.db.get_user(user_id) {
            Ok(user) => user,
            Err(e) => {
                return Err(e);
            },
        };
        let placement: WagerPlacement = match plan_wager(
            &market,
            &bet,
            &user,
            side,
            amount,
            wager_id,
            now,
        ) {
            Ok(placement) => placement,
            Err(e) => {
                return Err(e);
            },
        };
        match self.db.create_wager(placement.wager) {
            Ok(_) => {},
            Err(e) => {
                return Err(e);
            },
        }
        match self.db.update_bet_pools(bet_id, placement.yes_pool, placement.no_pool) {
            Ok(()) => {},
            Err(e) => {
                return Err(e);
            },
        }
        match self.db.update_user_balance(user_id, placement.balance) {
            Ok(()) => {},
            Err(e) => {
                return Err(e);
            },
        }
        Ok(placement.wager)
    }

    /// Place a wager on a bet.
    ///
    /// Nobody may wager on a bet about themselves, whatever their role.
    pub fn place_wager(&mut self, bet_id: u128, user_id: u128, side: Side, amount: i64) -> (r:
        DbResult<Wager>)
        ensures
            final(self).reliable() == old(self).reliable(),
            exists|wager_id: u128, now: i64| #[trigger]
                wager_outcome(
                    old(self).ledger(),
                    old(self).reliable(),
                    bet_id,
                    user_id,
                    side,
                    amount,
                    wager_id,
                    now,
                    r,
                    final(self).ledger(),
                ),
    {
        let wager_id: u128 = fresh_id();
        let now: i64 = now_millis();
        self.place_wager_with(bet_id, user_id, side, amount, wager_id, now)
    }

    /// Resolve a bet at the time that the host supplied.
    #[verifier::loop_isolation(false)]
    pub fn resolve_bet_with(&mut self, bet_id: u128, admin_id: u128, outcome: Side, now: i64) -> (r:
        DbResult<Vec<(u128, i64)>>)
        ensures
            final(self).reliable() == old(self).reliable(),
            resolution_outcome(
                old(self).ledger(),
                old(self).reliable(),
                bet_id,
                admin_id,
                outcome,
                now,
                r,
                final(self).ledger(),
            ),
    {
        let ghost before = self.ledger();
        let bet: Bet = match self.db.get_bet(bet_id) {
            Ok(bet) => bet,
            Err(e) => {
                return Err(e);
            },
        };
        let market: Market = match self.db.get_market(bet.market_id) {
            Ok(market) => market,
            Err(e) => {
                return Err(e);
            },
        };
        let admin: User = match self.db.get_user(admin_id) {
            Ok(admin) => admin,
            Err(e) => {
                return Err(e);
            },
        };
        let wagers: Vec<Wager> = match self.db.get_wagers_for_bet(bet_id) {
            Ok(wagers) => wagers,
            Err(e) => {
                return Err(e);
            },
        };
        let settlement: Settlement = match plan_resolution(
            &market,
            &bet,
            &admin,
            outcome,
            wagers.as_slice(),
            now,
        ) {
            Ok(settlement) => settlement,
            Err(e) => {
                return Err(e);
            },
        };
        let status: BetStatus = settlement.status;
        let payouts: Vec<(u128, i64)> = settlement.payouts;
        let mut balances: Vec<i64> = Vec::new();
        let mut i: usize = 0;
        while i < payouts.len()
            invariant
                i <= payouts.len(),
                balances.len() == i,
                self.ledger() == before,
                self.reliable() == old(self).reliable(),
                forall|j: int|
                    0 <= j < i ==> (before.find_user((#[trigger] payouts[j]).0) matches Some(user)
                        && balances[j] == user.balance + payouts[j].1),
            decreases payouts.len() - i,
        {
            let user: User = match self.db.get_user(payouts[i].0) {
                Ok(user) => user,
                Err(e) => {
                    return Err(e);
                },
            };
            match credited_balance(&user, payouts[i].1) {
                Some(balance) => {
                    balances.push(balance);
                },
                None => {
                    return Err(
                        DbError::Internal("the balance of a winner is out of range".to_string()),
                    );
                },
            }
            i += 1;
        }
        assert(can_credit(before, payouts@));
        match self.db.update_bet_status(bet_id, status, now) {
            Ok(()) => {},
            Err(e) => {
                return Err(e);
            },
        }
        let ghost base = before.with_bet_status(bet_id, status, now);
        let mut i: usize = 0;
        while i < payouts.len()
            invariant
                i <= payouts.len(),
                balances.len() == payouts.len(),
                self.reliable() == old(self).reliable(),
                before == old(self).ledger(),
                self.ledger() == credited(base, before, payouts@.take(i as int)),
                forall|j: int|
                    0 <= j < payouts.len() ==> (before.find_user(
                        (#[trigger] payouts[j]).0,
                    ) matches Some(user) && balances[j] == user.balance + payouts[j].1),
            decreases payouts.len() - i,
        {
            match self.db.update_user_balance(payouts[i].0, balances[i]) {
                Ok(()) => {},
                Err(e) => {
                    return Err(e);
                },
            }
            proof {
                assert(payouts@.take(i + 1).drop_last() =~= payouts@.take(i as int));
                assert(payouts@.take(i + 1).last() == payouts@[i as int]);
            }
            i += 1;
        }
        assert(payouts@.take(i as int) =~= payouts@);
        Ok(payouts)
    }

    /// Resolve a bet.
    ///
    /// Returns one `(user_id, payout)` pair per winner. A payout is the
    /// winner's share of the total pool, rounded down; what rounding leaves
    /// over is not handed out.
    pub fn resolve_bet(&mut self, bet_id: u128, admin_id: u128, outcome: Side) -> (r: DbResult<
        Vec<(u128, i64)>,
    >)
        ensures
            final(self).reliable() == old(self).reliable(),
            exists|now: i64| #[trigger]
                resolution_outcome(
                    old(self).ledger(),
                    old(self).reliable(),
                    bet_id,
                    admin_id,
                    outcome,
                    now,
                    r,
                    final(self).ledger(),
                ),
    {
        let now: i64 = now_millis();
        self.resolve_bet_with(bet_id, admin_id, outcome, now)
    }
}

} // verus!
