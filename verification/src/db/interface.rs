//! The storage interface that the service is written against.
//!
//! Every implementation has an abstract state, a [`Ledger`], and each
//! operation says how it reads or changes that state. An operation may fail
//! for reasons of its own; if it does, it leaves the state as it was. A
//! store that is `reliable` fails only where its contract says so.

use vstd::prelude::*;
use crate::db::error::DbResult;
use crate::db::ledger::Ledger;
use crate::domain::models::{Bet, BetStatus, BetView, Market, MarketStatus, User, Wager};

verus! {

/// Marks the types that can serve as a store.
pub trait DatabaseMarker {

}

impl<T> DatabaseMarker for T {

}

/// The most entries that a listing of a device's markets returns.
pub const DEVICE_MARKETS_LIMIT: usize = 10;

/// All storage operations that the service needs.
///
/// An implementation that is verified defines its ledger and proves each
/// operation against it, as the store in memory does. An implementation
/// that is not verified, such as one on a relational database, has no
/// ledger to show: there the two specification functions are functions that
/// are never called, and what is proved of the service holds as far as the
/// store keeps to these contracts.
pub trait Database: DatabaseMarker {
    /// The abstract state of the store.
    spec fn ledger(&self) -> Ledger;

    /// The store fails only where the contract of an operation names the
    /// reason: a lookup only where nothing matches, an insertion only where
    /// the row is not accepted, an update or a listing never.
    spec fn reliable(&self) -> bool;

    // ===== Market operations =====
    /// Inserts a market; its id and its invite code must not be in use.
    fn create_market(&mut self, market: Market) -> (r: DbResult<Market>)
        ensures
            final(self).reliable() == old(self).reliable(),
            r matches Ok(m) ==> m == market && old(self).ledger().accepts_market(market)
                && final(self).ledger() == old(self).ledger().with_market(market),
            r is Err ==> final(self).ledger() == old(self).ledger(),
            old(self).reliable() && old(self).ledger().accepts_market(market) ==> r is Ok,
    ;

    /// Looks a market up by id.
    fn get_market(&self, id: u128) -> (r: DbResult<Market>)
        ensures
            r matches Ok(m) ==> self.ledger().find_market(id) == Some(m),
            r matches Err(e) ==> (self.reliable() ==> self.ledger().find_market(id) is None
                && e is NotFound),
    ;

    /// Looks a market up by invite code.
    fn get_market_by_invite_code(&self, code: &str) -> (r: DbResult<Market>)
        ensures
            r matches Ok(m) ==> self.ledger().find_market_by_code(code@) == Some(m),
            r matches Err(e) ==> (self.reliable() ==> self.ledger().find_market_by_code(code@)
                is None && e is NotFound),
    ;

    /// Sets the status of a market.
    fn update_market_status(&mut self, id: u128, status: MarketStatus) -> (r: DbResult<()>)
        ensures
            final(self).reliable() == old(self).reliable(),
            r is Ok ==> final(self).ledger() == old(self).ledger().with_market_status(id, status),
            r is Err ==> final(self).ledger() == old(self).ledger(),
            old(self).reliable() ==> r is Ok,
    ;

    /// Removes a market and everything that belongs to it.
    fn delete_market(&mut self, id: u128) -> (r: DbResult<()>)
        ensures
            final(self).reliable() == old(self).reliable(),
            r is Ok ==> final(self).ledger() == old(self).ledger().without_market(id),
            r is Err ==> final(self).ledger() == old(self).ledger(),
            old(self).reliable() ==> r is Ok,
    ;

    /// Lists markets that a device has joined, each with the device's user
    /// in it, no user twice: all of them, or, where there are more,
    /// `DEVICE_MARKETS_LIMIT` of them.
    fn get_markets_by_device_id(&self, device_id: &str) -> (r: DbResult<Vec<(Market, User)>>)
        ensures
            r matches Ok(pairs) ==> self.ledger().device_listing(
                device_id@,
                pairs@,
                DEVICE_MARKETS_LIMIT as int,
            ),
            self.reliable() ==> r is Ok,
    ;

    // ===== User operations =====
    /// Inserts a user; the id must not be in use, and the device must be
    /// new to the market.
    fn create_user(&mut self, user: User) -> (r: DbResult<User>)
        ensures
            final(self).reliable() == old(self).reliable(),
            r matches Ok(u) ==> u == user && old(self).ledger().accepts_user(user)
                && final(self).ledger() == old(self).ledger().with_user(user),
            r is Err ==> final(self).ledger() == old(self).ledger(),
            old(self).reliable() && old(self).ledger().accepts_user(user) ==> r is Ok,
    ;

    /// Looks a user up by id.
    fn get_user(&self, id: u128) -> (r: DbResult<User>)
        ensures
            r matches Ok(u) ==> self.ledger().find_user(id) == Some(u),
            r matches Err(e) ==> (self.reliable() ==> self.ledger().find_user(id) is None
                && e is NotFound),
    ;

    /// Looks up the user of a market who joined from a device.
    fn get_user_by_device_id(&self, market_id: u128, device_id: &str) -> (r: DbResult<User>)
        ensures
            r matches Ok(u) ==> self.ledger().find_user_by_device(market_id, device_id@) == Some(u),
            r matches Err(e) ==> (self.reliable() ==> self.ledger().find_user_by_device(
                market_id,
                device_id@,
            ) is None && e is NotFound),
    ;

    /// Lists the users of a market.
    fn get_users_in_market(&self, market_id: u128) -> (r: DbResult<Vec<User>>)
        ensures
            r matches Ok(users) ==> users@ == self.ledger().users_in(market_id),
            self.reliable() ==> r is Ok,
    ;

    /// Sets the balance of a user.
    fn update_user_balance(&mut self, user_id: u128, new_balance: i64) -> (r: DbResult<()>)
        ensures
            final(self).reliable() == old(self).reliable(),
            r is Ok ==> final(self).ledger() == old(self).ledger().with_balance(
                user_id,
                new_balance,
            ),
            r is Err ==> final(self).ledger() == old(self).ledger(),
            old(self).reliable() ==> r is Ok,
    ;

    // ===== Bet operations =====
    /// Inserts a bet; its id must not be in use.
    fn create_bet(&mut self, bet: Bet) -> (r: DbResult<Bet>)
        ensures
            final(self).reliable() == old(self).reliable(),
            r matches Ok(b) ==> b == bet && old(self).ledger().accepts_bet(bet)
                && final(self).ledger() == old(self).ledger().with_bet(bet),
            r is Err ==> final(self).ledger() == old(self).ledger(),
            old(self).reliable() && old(self).ledger().accepts_bet(bet) ==> r is Ok,
    ;

    /// Looks a bet up by id.
    fn get_bet(&self, id: u128) -> (r: DbResult<Bet>)
        ensures
            r matches Ok(b) ==> self.ledger().find_bet(id) == Some(b),
            r matches Err(e) ==> (self.reliable() ==> self.ledger().find_bet(id) is None
                && e is NotFound),
    ;

    /// Lists the bets of a market.
    fn get_bets_in_market(&self, market_id: u128) -> (r: DbResult<Vec<Bet>>)
        ensures
            r matches Ok(bets) ==> bets@ == self.ledger().bets_in(market_id),
            self.reliable() ==> r is Ok,
    ;

    /// Lists the bets of a market as one user may see them: a bet that is
    /// hidden from its subject comes without subject and description.
    fn get_bets_for_user(&self, market_id: u128, viewing_user_id: u128) -> (r: DbResult<
        Vec<BetView>,
    >)
        ensures
            r matches Ok(views) ==> views@ == self.ledger().bet_views_for(
                market_id,
                viewing_user_id,
            ),
            self.reliable() ==> r is Ok,
    ;

    /// Lists the bets of a market that await approval.
    fn get_pending_bets(&self, market_id: u128) -> (r: DbResult<Vec<Bet>>)
        ensures
            r matches Ok(bets) ==> bets@ == self.ledger().pending_bets_in(market_id),
            self.reliable() ==> r is Ok,
    ;

    /// Sets the status of a bet, and its resolution time: to `now` where
    /// the status is a resolution, to none otherwise.
    fn update_bet_status(&mut self, bet_id: u128, status: BetStatus, now: i64) -> (r: DbResult<()>)
        ensures
            final(self).reliable() == old(self).reliable(),
            r is Ok ==> final(self).ledger() == old(self).ledger().with_bet_status(
                bet_id,
                status,
                now,
            ),
            r is Err ==> final(self).ledger() == old(self).ledger(),
            old(self).reliable() ==> r is Ok,
    ;

    /// Sets the pools of a bet.
    fn update_bet_pools(&mut self, bet_id: u128, yes_pool: i64, no_pool: i64) -> (r: DbResult<()>)
        ensures
            final(self).reliable() == old(self).reliable(),
            r is Ok ==> final(self).ledger() == old(self).ledger().with_pools(
                bet_id,
                yes_pool,
                no_pool,
            ),
            r is Err ==> final(self).ledger() == old(self).ledger(),
            old(self).reliable() ==> r is Ok,
    ;

    // ===== Wager operations =====
    /// Inserts a wager; its id must not be in use.
    fn create_wager(&mut self, wager: Wager) -> (r: DbResult<Wager>)
        ensures
            final(self).reliable() == old(self).reliable(),
            r matches Ok(w) ==> w == wager && old(self).ledger().accepts_wager(wager)
                && final(self).ledger() == old(self).ledger().with_wager(wager),
            r is Err ==> final(self).ledger() == old(self).ledger(),
            old(self).reliable() && old(self).ledger().accepts_wager(wager) ==> r is Ok,
    ;

    /// Looks a wager up by id.
    fn get_wager(&self, id: u128) -> (r: DbResult<Wager>)
        ensures
            r matches Ok(w) ==> self.ledger().find_wager(id) == Some(w),
            r matches Err(e) ==> (self.reliable() ==> self.ledger().find_wager(id) is None
                && e is NotFound),
    ;

    /// Lists the wagers on a bet, in the order in which they were placed.
    fn get_wagers_for_bet(&self, bet_id: u128) -> (r: DbResult<Vec<Wager>>)
        ensures
            r matches Ok(wagers) ==> wagers@ == self.ledger().wagers_for_bet(bet_id),
            self.reliable() ==> r is Ok,
    ;

    /// Lists the wagers of a user.
    fn get_wagers_for_user(&self, user_id: u128) -> (r: DbResult<Vec<Wager>>)
        ensures
            r matches Ok(wagers) ==> wagers@ == self.ledger().wagers_for_user(user_id),
            self.reliable() ==> r is Ok,
    ;

    // ===== Reveal operations (end of market) =====
    /// Lists all bets about a specific user, for the reveal screen.
    fn get_bets_about_user(&self, user_id: u128) -> (r: DbResult<Vec<Bet>>)
        ensures
            r matches Ok(bets) ==> bets@ == self.ledger().bets_about(user_id),
            self.reliable() ==> r is Ok,
    ;
}

} // verus!
