//! The service: every operation of the game over a store.
//!
//! An operation reads what it needs, decides, and only then writes. Its
//! contract says how the store's ledger changes when it succeeds, and that
//! a refused request changes nothing. Over a reliable store it also says
//! exactly which requests succeed.
//!
//! Every operation that writes takes the service by `&mut`, so that no two
//! of them interleave on one service.

use vstd::prelude::*;
use vstd::string::*;
use crate::api::leaderboard::{
    leaderboard, profits_in_range, profits_representable, ranking, LeaderboardResponse,
};
use crate::api::models::revealed_views;
use crate::db::error::{DbError, DbResult};
use crate::db::interface::{Database, DEVICE_MARKETS_LIMIT};
use crate::db::ledger::Ledger;
use crate::domain::models::{Bet, BetView, Market, ProbabilityPoint, User, Wager};
use crate::service::plans::{chart_point, probability_chart};

verus! {

/// The service over a store of type `D`.
pub struct CazinoService<D: Database> {
    pub(crate) db: D,
}

impl<D: Database> CazinoService<D> {
    /// The store that the service works on.
    pub open(crate) spec fn store(&self) -> D {
        self.db
    }

    /// The ledger of the store.
    pub open spec fn ledger(&self) -> Ledger {
        self.store().ledger()
    }

    /// The store is reliable.
    pub open spec fn reliable(&self) -> bool {
        self.store().reliable()
    }

    /// A service over `db`.
    pub fn new(db: D) -> (r: Self)
        ensures
            r.store() == db,
    {
        CazinoService { db }
    }

    /// The store, for reading.
    pub fn database(&self) -> (db: &D)
        ensures
            *db == self.store(),
    {
        &self.db
    }

    /// Ends the service and hands the store back.
    pub fn into_database(self) -> (db: D)
        ensures
            db == self.store(),
    {
        self.db
    }

    /// Get all bets in a market, as `viewing_user_id` may see them.
    pub fn get_bets(&self, market_id: u128, viewing_user_id: u128) -> (r: DbResult<Vec<BetView>>)
        ensures
            r matches Ok(views) ==> views@ == self.ledger().bet_views_for(
                market_id,
                viewing_user_id,
            ),
            self.reliable() ==> r is Ok,
    {
        self.db.get_bets_for_user(market_id, viewing_user_id)
    }

    /// Get the bets of a market that await approval.
    pub fn get_pending_bets(&self, market_id: u128) -> (r: DbResult<Vec<Bet>>)
        ensures
            r matches Ok(bets) ==> bets@ == self.ledger().pending_bets_in(market_id),
            self.reliable() ==> r is Ok,
    {
        self.db.get_pending_bets(market_id)
    }

    /// Get the probability chart of a bet: one point per wager, in the
    /// order in which the store lists the wagers.
    pub fn get_probability_chart(&self, bet_id: u128) -> (r: DbResult<Vec<ProbabilityPoint>>)
        ensures
            r matches Ok(points) ==> points@ == self.ledger().wagers_for_bet(bet_id).map_values(
                |w: Wager| chart_point(w),
            ),
            self.reliable() ==> r is Ok,
    {
        match self.db.get_wagers_for_bet(bet_id) {
            Ok(wagers) => Ok(probability_chart(wagers.as_slice())),
            Err(e) => Err(e),
        }
    }

    /// Get all users in a market, for the leaderboard.
    pub fn get_users(&self, market_id: u128) -> (r: DbResult<Vec<User>>)
        ensures
            r matches Ok(users) ==> users@ == self.ledger().users_in(market_id),
            self.reliable() ==> r is Ok,
    {
        self.db.get_users_in_market(market_id)
    }

    /// Get the bets about a specific user, for the reveal screen.
    pub fn get_bets_about_user(&self, user_id: u128) -> (r: DbResult<Vec<Bet>>)
        ensures
            r matches Ok(bets) ==> bets@ == self.ledger().bets_about(user_id),
            self.reliable() ==> r is Ok,
    {
        self.db.get_bets_about_user(user_id)
    }

    /// Get the bets about a specific user with nothing withheld, as for a
    /// viewer who is the subject of no bet. For use after a market has
    /// ended.
    pub fn get_reveal(&self, user_id: u128) -> (r: DbResult<Vec<BetView>>)
        ensures
            r matches Ok(views) ==> views@ == self.ledger().bets_about(user_id).map_values(
                |b: Bet| b.projection(false),
            ),
            self.reliable() ==> r is Ok,
    {
        match self.db.get_bets_about_user(user_id) {
            Ok(bets) => Ok(revealed_views(&bets)),
            Err(e) => Err(e),
        }
    }

    /// Get the leaderboard of a market: its users by balance, richest
    /// first, each with their profit and with their position as rank.
    /// Users with equal balances get consecutive ranks.
    pub fn get_leaderboard(&self, market_id: u128) -> (r: DbResult<LeaderboardResponse>)
        ensures
            r matches Ok(board) ==> {
                &&& self.ledger().find_market(market_id) matches Some(market)
                &&& profits_in_range(market, self.ledger().users_in(market_id))
                &&& board.users.len() == self.ledger().users_in(market_id).len()
                &&& forall|i: int|
                    0 <= i < board.users.len() ==> {
                        &&& (#[trigger] board.users[i]).user == ranking(
                            self.ledger().users_in(market_id),
                        )[i]
                        &&& board.users[i].rank == i + 1
                        &&& board.users[i].profit == board.users[i].user.balance
                            - market.starting_balance
                    }
            },
            self.reliable() ==> match self.ledger().find_market(market_id) {
                None => r matches Err(e) && e is NotFound,
                Some(market) => if profits_in_range(market, self.ledger().users_in(market_id)) {
                    r is Ok
                } else {
                    r matches Err(e) && e is Internal
                },
            },
    {
        let market: Market = match self.db.get_market(market_id) {
            Ok(market) => market,
            Err(e) => {
                return Err(e);
            },
        };
        let users: Vec<User> = match self.db.get_users_in_market(market_id) {
            Ok(users) => users,
            Err(e) => {
                return Err(e);
            },
        };
        if !profits_representable(&market, &users) {
            return Err(DbError::Internal("a profit is out of range".to_string()));
        }
        Ok(leaderboard(&market, users))
    }

    /// Get a market by id.
    pub fn get_market(&self, market_id: u128) -> (r: DbResult<Market>)
        ensures
            r matches Ok(m) ==> self.ledger().find_market(market_id) == Some(m),
            r matches Err(e) ==> (self.reliable() ==> self.ledger().find_market(market_id)
                is None && e is NotFound),
    {
        self.db.get_market(market_id)
    }

    /// Get a user by id.
    pub fn get_user(&self, user_id: u128) -> (r: DbResult<User>)
        ensures
            r matches Ok(u) ==> self.ledger().find_user(user_id) == Some(u),
            r matches Err(e) ==> (self.reliable() ==> self.ledger().find_user(user_id) is None
                && e is NotFound),
    {
        self.db.get_user(user_id)
    }

    /// Get a bet by id.
    pub fn get_bet(&self, bet_id: u128) -> (r: DbResult<Bet>)
        ensures
            r matches Ok(b) ==> self.ledger().find_bet(bet_id) == Some(b),
            r matches Err(e) ==> (self.reliable() ==> self.ledger().find_bet(bet_id) is None
                && e is NotFound),
    {
        self.db.get_bet(bet_id)
    }

    /// Get markets that a device has joined, each with the device's user in
    /// it, no user twice: all of them, or, where there are more,
    /// `DEVICE_MARKETS_LIMIT` of them.
    pub fn get_markets_by_device_id(&self, device_id: &str) -> (r: DbResult<Vec<(Market, User)>>)
        ensures
            r matches Ok(pairs) ==> self.ledger().device_listing(
                device_id@,
                pairs@,
                DEVICE_MARKETS_LIMIT as int,
            ),
            self.reliable() ==> r is Ok,
    {
        self.db.get_markets_by_device_id(device_id)
    }
}

} // verus!
