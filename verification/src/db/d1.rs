//! A store on a Cloudflare D1 binding.
//!
//! The library does not depend on the worker runtime: whoever embeds it
//! hands in the binding. The statements that would run on it are not written
//! yet, so every operation reports an internal error and the store stays
//! empty.

use vstd::prelude::*;
use crate::db::error::{DbError, DbResult};
use crate::db::interface::Database;
use crate::db::ledger::Ledger;
use crate::domain::models::{Bet, BetStatus, BetView, Market, MarketStatus, User, Wager};

verus! {

/// A store that holds a D1 binding of type `B`.
pub struct D1Database<B> {
    db: B,
}

/// What every operation of a `D1Database` reports.
pub open spec fn not_implemented_text() -> Seq<char> {
    "D1 not yet implemented"@
}

fn not_implemented<T>() -> (r: DbResult<T>)
    ensures
        r matches Err(DbError::Internal(text)) && text@ == not_implemented_text(),
{
    Err(DbError::Internal("D1 not yet implemented".to_string()))
}

impl<B> D1Database<B> {
    /// The binding that the store was made with.
    pub closed spec fn binding(&self) -> B {
        self.db
    }

    /// Wraps a D1 binding.
    pub fn new(db: B) -> (r: Self)
        ensures
            r.binding() == db,
            r.ledger() == Ledger::empty(),
            !r.reliable(),
    {
        D1Database { db }
    }

    /// Hands the binding back.
    pub fn into_inner(self) -> (db: B)
        ensures
            db == self.binding(),
    {
        self.db
    }
}

impl<B> Database for D1Database<B> {
    open spec fn ledger(&self) -> Ledger {
        Ledger::empty()
    }

    open spec fn reliable(&self) -> bool {
        false
    }

    fn create_market(&mut self, market: Market) -> (r: DbResult<Market>)
        ensures
            r matches Err(DbError::Internal(text)) && text@ == not_implemented_text(),
    {
        not_implemented()
    }

    fn get_market(&self, id: u128) -> (r: DbResult<Market>)
        ensures
            r matches Err(DbError::Internal(text)) && text@ == not_implemented_text(),
    {
        not_implemented()
    }

    fn get_market_by_invite_code(&self, code: &str) -> (r: DbResult<Market>)
        ensures
            r matches Err(DbError::Internal(text)) && text@ == not_implemented_text(),
    {
        not_implemented()
    }

    fn update_market_status(&mut self, id: u128, status: MarketStatus) -> (r: DbResult<()>)
        ensures
            r matches Err(DbError::Internal(text)) && text@ == not_implemented_text(),
    {
        not_implemented()
    }

    fn delete_market(&mut self, id: u128) -> (r: DbResult<()>)
        ensures
            r matches Err(DbError::Internal(text)) && text@ == not_implemented_text(),
    {
        not_implemented()
    }

    fn get_markets_by_device_id(&self, device_id: &str) -> (r: DbResult<Vec<(Market, User)>>)
        ensures
            r matches Err(DbError::Internal(text)) && text@ == not_implemented_text(),
    {
        not_implemented()
    }

    fn create_user(&mut self, user: User) -> (r: DbResult<User>)
        ensures
            r matches Err(DbError::Internal(text)) && text@ == not_implemented_text(),
    {
        not_implemented()
    }

    fn get_user(&self, id: u128) -> (r: DbResult<User>)
        ensures
            r matches Err(DbError::Internal(text)) && text@ == not_implemented_text(),
    {
        not_implemented()
    }

    fn get_user_by_device_id(&self, market_id: u128, device_id: &str) -> (r: DbResult<User>)
        ensures
            r matches Err(DbError::Internal(text)) && text@ == not_implemented_text(),
    {
        not_implemented()
    }

    fn get_users_in_market(&self, market_id: u128) -> (r: DbResult<Vec<User>>)
        ensures
            r matches Err(DbError::Internal(text)) && text@ == not_implemented_text(),
    {
        not_implemented()
    }

    fn update_user_balance(&mut self, user_id: u128, new_balance: i64) -> (r: DbResult<()>)
        ensures
            r matches Err(DbError::Internal(text)) && text@ == not_implemented_text(),
    {
        not_implemented()
    }

    fn create_bet(&mut self, bet: Bet) -> (r: DbResult<Bet>)
        ensures
            r matches Err(DbError::Internal(text)) && text@ == not_implemented_text(),
    {
        not_implemented()
    }

    fn get_bet(&self, id: u128) -> (r: DbResult<Bet>)
        ensures
            r matches Err(DbError::Internal(text)) && text@ == not_implemented_text(),
    {
        not_implemented()
    }

    fn get_bets_in_market(&self, market_id: u128) -> (r: DbResult<Vec<Bet>>)
        ensures
            r matches Err(DbError::Internal(text)) && text@ == not_implemented_text(),
    {
        not_implemented()
    }

    fn get_bets_for_user(&self, market_id: u128, viewing_user_id: u128) -> (r: DbResult<
        Vec<BetView>,
    >)
        ensures
            r matches Err(DbError::Internal(text)) && text@ == not_implemented_text(),
    {
        not_implemented()
    }

    fn get_pending_bets(&self, market_id: u128) -> (r: DbResult<Vec<Bet>>)
        ensures
            r matches Err(DbError::Internal(text)) && text@ == not_implemented_text(),
    {
        not_implemented()
    }

    fn update_bet_status(&mut self, bet_id: u128, status: BetStatus, now: i64) -> (r: DbResult<()>)
        ensures
            r matches Err(DbError::Internal(text)) && text@ == not_implemented_text(),
    {
        not_implemented()
    }

    fn update_bet_pools(&mut self, bet_id: u128, yes_pool: i64, no_pool: i64) -> (r: DbResult<()>)
        ensures
            r matches Err(DbError::Internal(text)) && text@ == not_implemented_text(),
    {
        not_implemented()
    }

    fn create_wager(&mut self, wager: Wager) -> (r: DbResult<Wager>)
        ensures
            r matches Err(DbError::Internal(text)) && text@ == not_implemented_text(),
    {
        not_implemented()
    }

    fn get_wager(&self, id: u128) -> (r: DbResult<Wager>)
        ensures
            r matches Err(DbError::Internal(text)) && text@ == not_implemented_text(),
    {
        not_implemented()
    }

    fn get_wagers_for_bet(&self, bet_id: u128) -> (r: DbResult<Vec<Wager>>)
        ensures
            r matches Err(DbError::Internal(text)) && text@ == not_implemented_text(),
    {
        not_implemented()
    }

    fn get_wagers_for_user(&self, user_id: u128) -> (r: DbResult<Vec<Wager>>)
        ensures
            r matches Err(DbError::Internal(text)) && text@ == not_implemented_text(),
    {
        not_implemented()
    }

    fn get_bets_about_user(&self, user_id: u128) -> (r: DbResult<Vec<Bet>>)
        ensures
            r matches Err(DbError::Internal(text)) && text@ == not_implemented_text(),
    {
        not_implemented()
    }
}

} // verus!
