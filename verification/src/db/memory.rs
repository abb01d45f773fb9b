//! A store that keeps its four tables in memory.

use vstd::prelude::*;
use crate::db::error::{DbError, DbResult};
use crate::db::interface::{Database, DEVICE_MARKETS_LIMIT};
use crate::db::ledger::{
    bet_with_pools, bet_with_status, lemma_filter_start, lemma_filter_step,
    lemma_first_where_found, lemma_first_where_none, market_with_status, resolution_time,
    user_with_balance, Ledger,
};
use crate::domain::models::{Bet, BetStatus, BetView, Market, MarketStatus, User, Wager};

verus! {

/// A store in memory. It is reliable: a lookup fails only where nothing
/// matches, an insertion only where the id or a unique key is in use, and
/// an update or a listing never.
pub struct MemoryDatabase {
    markets: Vec<Market>,
    users: Vec<User>,
    bets: Vec<Bet>,
    wagers: Vec<Wager>,
}

impl MemoryDatabase {
    /// A store that holds nothing.
    pub fn new() -> (r: Self)
        ensures
            r.ledger() == Ledger::empty(),
            r.reliable(),
    {
        MemoryDatabase { markets: Vec::new(), users: Vec::new(), bets: Vec::new(), wagers: Vec::new() }
    }

    fn market_position(&self, id: u128) -> (r: Option<usize>)
        ensures
            match r {
                Some(i) => i < self.markets.len() && self.ledger().find_market(id) == Some(
                    self.markets[i as int],
                ),
                None => self.ledger().find_market(id) is None,
            },
    {
        let mut i: usize = 0;
        while i < self.markets.len()
            invariant
                i <= self.markets.len(),
                forall|j: int| 0 <= j < i ==> (#[trigger] self.markets[j]).id != id,
            decreases self.markets.len() - i,
        {
            if self.markets[i].id == id {
                proof {
                    lemma_first_where_found(self.markets@, |m: Market| m.id == id, i as int);
                }
                return Some(i);
            }
            i += 1;
        }
        proof {
            lemma_first_where_none(self.markets@, |m: Market| m.id == id);
        }
        None
    }

    fn code_position(&self, code: &String) -> (r: Option<usize>)
        ensures
            match r {
                Some(i) => i < self.markets.len() && self.ledger().find_market_by_code(code@)
                    == Some(self.markets[i as int]),
                None => self.ledger().find_market_by_code(code@) is None,
            },
    {
        let mut i: usize = 0;
        while i < self.markets.len()
            invariant
                i <= self.markets.len(),
                forall|j: int| 0 <= j < i ==> (#[trigger] self.markets[j]).invite_code@ != code@,
            decreases self.markets.len() - i,
        {
            if self.markets[i].invite_code == *code {
                proof {
                    lemma_first_where_found(
                        self.markets@,
                        |m: Market| m.invite_code@ == code@,
                        i as int,
                    );
                }
                return Some(i);
            }
            i += 1;
        }
        proof {
            lemma_first_where_none(self.markets@, |m: Market| m.invite_code@ == code@);
        }
        None
    }

    fn user_position(&self, id: u128) -> (r: Option<usize>)
        ensures
            match r {
                Some(i) => i < self.users.len() && self.ledger().find_user(id) == Some(
                    self.users[i as int],
                ),
                None => self.ledger().find_user(id) is None,
            },
    {
        let mut i: usize = 0;
        while i < self.users.len()
            invariant
                i <= self.users.len(),
                forall|j: int| 0 <= j < i ==> (#[trigger] self.users[j]).id != id,
            decreases self.users.len() - i,
        {
            if self.users[i].id == id {
                proof {
                    lemma_first_where_found(self.users@, |u: User| u.id == id, i as int);
                }
                return Some(i);
            }
            i += 1;
        }
        proof {
            lemma_first_where_none(self.users@, |u: User| u.id == id);
        }
        None
    }

    fn device_position(&self, market_id: u128, device_id: &String) -> (r: Option<usize>)
        ensures
            match r {
                Some(i) => i < self.users.len() && self.ledger().find_user_by_device(
                    market_id,
                    device_id@,
                ) == Some(self.users[i as int]),
                None => self.ledger().find_user_by_device(market_id, device_id@) is None,
            },
    {
        let mut i: usize = 0;
        while i < self.users.len()
            invariant
                i <= self.users.len(),
                forall|j: int|
                    0 <= j < i ==> !((#[trigger] self.users[j]).market_id == market_id
                        && self.users[j].device_id@ == device_id@),
            decreases self.users.len() - i,
        {
            if self.users[i].market_id == market_id && self.users[i].device_id == *device_id {
                proof {
                    lemma_first_where_found(
                        self.users@,
                        |u: User| u.market_id == market_id && u.device_id@ == device_id@,
                        i as int,
                    );
                }
                return Some(i);
            }
            i += 1;
        }
        proof {
            lemma_first_where_none(
                self.users@,
                |u: User| u.market_id == market_id && u.device_id@ == device_id@,
            );
        }
        None
    }

    fn bet_position(&self, id: u128) -> (r: Option<usize>)
        ensures
            match r {
                Some(i) => i < self.bets.len() && self.ledger().find_bet(id) == Some(
                    self.bets[i as int],
                ),
                None => self.ledger().find_bet(id) is None,
            },
    {
        let mut i: usize = 0;
        while i < self.bets.len()
            invariant
                i <= self.bets.len(),
                forall|j: int| 0 <= j < i ==> (#[trigger] self.bets[j]).id != id,
            decreases self.bets.len() - i,
        {
            if self.bets[i].id == id {
                proof {
                    lemma_first_where_found(self.bets@, |b: Bet| b.id == id, i as int);
                }
                return Some(i);
            }
            i += 1;
        }
        proof {
            lemma_first_where_none(self.bets@, |b: Bet| b.id == id);
        }
        None
    }

    fn wager_position(&self, id: u128) -> (r: Option<usize>)
        ensures
            match r {
                Some(i) => i < self.wagers.len() && self.ledger().find_wager(id) == Some(
                    self.wagers[i as int],
                ),
                None => self.ledger().find_wager(id) is None,
            },
    {
        let mut i: usize = 0;
        while i < self.wagers.len()
            invariant
                i <= self.wagers.len(),
                forall|j: int| 0 <= j < i ==> (#[trigger] self.wagers[j]).id != id,
            decreases self.wagers.len() - i,
        {
            if self.wagers[i].id == id {
                proof {
                    lemma_first_where_found(self.wagers@, |w: Wager| w.id == id, i as int);
                }
                return Some(i);
            }
            i += 1;
        }
        proof {
            lemma_first_where_none(self.wagers@, |w: Wager| w.id == id);
        }
        None
    }
}

impl Database for MemoryDatabase {
    closed spec fn ledger(&self) -> Ledger {
        Ledger { markets: self.markets@, users: self.users@, bets: self.bets@, wagers: self.wagers@ }
    }

    open spec fn reliable(&self) -> bool {
        true
    }

    fn create_market(&mut self, market: Market) -> (r: DbResult<Market>) {
        if self.market_position(market.id).is_some() {
            return Err(DbError::Internal("market id is already in use".to_string()));
        }
        if self.code_position(&market.invite_code).is_some() {
            return Err(DbError::Internal("invite code is already in use".to_string()));
        }
        self.markets.push(market.clone());
        Ok(market)
    }

    fn get_market(&self, id: u128) -> (r: DbResult<Market>) {
        match self.market_position(id) {
            Some(i) => Ok(self.markets[i].clone()),
            None => Err(DbError::NotFound("Market not found".to_string())),
        }
    }

    fn get_market_by_invite_code(&self, code: &str) -> (r: DbResult<Market>) {
        let wanted: String = code.to_string();
        match self.code_position(&wanted) {
            Some(i) => Ok(self.markets[i].clone()),
            None => Err(DbError::NotFound("Market not found".to_string())),
        }
    }

    fn update_market_status(&mut self, id: u128, status: MarketStatus) -> (r: DbResult<()>) {
        let mut i: usize = 0;
        while i < self.markets.len()
            invariant
                i <= self.markets.len(),
                self.markets.len() == old(self).markets.len(),
                self.users == old(self).users,
                self.bets == old(self).bets,
                self.wagers == old(self).wagers,
                forall|j: int|
                    0 <= j < i ==> (#[trigger] self.markets[j]) == (if old(self).markets[j].id
                        == id {
                        market_with_status(old(self).markets[j], status)
                    } else {
                        old(self).markets[j]
                    }),
                forall|j: int|
                    i <= j < self.markets.len() ==> (#[trigger] self.markets[j]) == old(
                        self,
                    ).markets[j],
            decreases self.markets.len() - i,
        {
            if self.markets[i].id == id {
                let mut changed: Market = self.markets[i].clone();
                changed.status = status;
                self.markets.set(i, changed);
            }
            i += 1;
        }
        assert(self.ledger().markets =~= old(self).ledger().with_market_status(id, status).markets);
        Ok(())
    }

    fn delete_market(&mut self, id: u128) -> (r: DbResult<()>) {
        let ghost before = self.ledger();
        let mut wagers: Vec<Wager> = Vec::new();
        let mut i: usize = 0;
        proof {
            lemma_filter_start(
                self.wagers@,
                |w: Wager| !(before.find_bet(w.bet_id) matches Some(b) && b.market_id == id),
            );
        }
        while i < self.wagers.len()
            invariant
                i <= self.wagers.len(),
                before == self.ledger(),
                wagers@ == self.wagers@.take(i as int).filter(
                    |w: Wager| !(before.find_bet(w.bet_id) matches Some(b) && b.market_id == id),
                ),
            decreases self.wagers.len() - i,
        {
            proof {
                lemma_filter_step(
                    self.wagers@,
                    |w: Wager| !(before.find_bet(w.bet_id) matches Some(b) && b.market_id == id),
                    i as int,
                );
            }
            let belongs: bool = match self.bet_position(self.wagers[i].bet_id) {
                Some(k) => self.bets[k].market_id == id,
                None => false,
            };
            if !belongs {
                wagers.push(self.wagers[i]);
            }
            i += 1;
        }
        assert(self.wagers@.take(i as int) =~= self.wagers@);
        let mut bets: Vec<Bet> = Vec::new();
        let mut i: usize = 0;
        proof {
            lemma_filter_start(self.bets@, |b: Bet| b.market_id != id);
        }
        while i < self.bets.len()
            invariant
                i <= self.bets.len(),
                bets@ == self.bets@.take(i as int).filter(|b: Bet| b.market_id != id),
            decreases self.bets.len() - i,
        {
            proof {
                lemma_filter_step(self.bets@, |b: Bet| b.market_id != id, i as int);
            }
            if self.bets[i].market_id != id {
                bets.push(self.bets[i].clone());
            }
            i += 1;
        }
        assert(self.bets@.take(i as int) =~= self.bets@);
        let mut users: Vec<User> = Vec::new();
        let mut i: usize = 0;
        proof {
            lemma_filter_start(self.users@, |u: User| u.market_id != id);
        }
        while i < self.users.len()
            invariant
                i <= self.users.len(),
                users@ == self.users@.take(i as int).filter(|u: User| u.market_id != id),
            decreases self.users.len() - i,
        {
            proof {
                lemma_filter_step(self.users@, |u: User| u.market_id != id, i as int);
            }
            if self.users[i].market_id != id {
                users.push(self.users[i].clone());
            }
            i += 1;
        }
        assert(self.users@.take(i as int) =~= self.users@);
        let mut markets: Vec<Market> = Vec::new();
        let mut i: usize = 0;
        proof {
            lemma_filter_start(self.markets@, |m: Market| m.id != id);
        }
        while i < self.markets.len()
            invariant
                i <= self.markets.len(),
                markets@ == self.markets@.take(i as int).filter(|m: Market| m.id != id),
            decreases self.markets.len() - i,
        {
            proof {
                lemma_filter_step(self.markets@, |m: Market| m.id != id, i as int);
            }
            if self.markets[i].id != id {
                markets.push(self.markets[i].clone());
            }
            i += 1;
        }
        assert(self.markets@.take(i as int) =~= self.markets@);
        self.markets = markets;
        self.users = users;
        self.bets = bets;
        self.wagers = wagers;
        Ok(())
    }

    fn get_markets_by_device_id(&self, device_id: &str) -> (r: DbResult<Vec<(Market, User)>>) {
        let wanted: String = device_id.to_string();
        let mut pairs: Vec<(Market, User)> = Vec::new();
        let ghost mut rows: Seq<int> = Seq::empty();
        let mut i: usize = self.users.len();
        while i > 0 && pairs.len() < DEVICE_MARKETS_LIMIT
            invariant
                i <= self.users.len(),
                wanted@ == device_id@,
                pairs.len() <= DEVICE_MARKETS_LIMIT,
                self.ledger().taken_from(device_id@, pairs@, rows),
                forall|k: int| 0 <= k < rows.len() ==> i <= #[trigger] rows[k],
                forall|j: int|
                    i <= j && #[trigger] self.ledger().joined_from(j, device_id@) ==> rows.contains(
                        j,
                    ),
            decreases i,
        {
            i -= 1;
            let ghost listed = pairs@;
            let ghost taken = rows;
            if self.users[i].device_id == wanted {
                match self.market_position(self.users[i].market_id) {
                    Some(k) => {
                        pairs.push((self.markets[k].clone(), self.users[i].clone()));
                        proof {
                            rows = taken.push(i as int);
                            assert(self.ledger().users[i as int] == self.users[i as int]);
                            assert(self.ledger().joined_from(i as int, device_id@));
                            assert forall|n: int| 0 <= n < pairs.len() implies {
                                &&& self.ledger().joined_from(#[trigger] rows[n], device_id@)
                                &&& pairs[n].1 == self.ledger().users[rows[n]]
                                &&& self.ledger().find_market(pairs[n].1.market_id) == Some(
                                    pairs[n].0,
                                )
                            } by {
                                if n < listed.len() {
                                    assert(pairs[n] == listed[n]);
                                    assert(rows[n] == taken[n]);
                                }
                            }
                            assert forall|m: int, n: int| 0 <= m < n < rows.len() implies rows[m]
                                != rows[n] by {
                                if n < taken.len() {
                                    assert(taken[m] != taken[n]);
                                } else {
                                    assert(i < taken[m]);
                                }
                            }
                        }
                    },
                    None => {},
                }
            }
            assert forall|j: int|
                i <= j && #[trigger] self.ledger().joined_from(j, device_id@) implies rows.contains(
                j,
            ) by {
                if j > i {
                    assert(taken.contains(j));
                    let n = choose|n: int| 0 <= n < taken.len() && taken[n] == j;
                    assert(rows[n] == j);
                } else {
                    assert(rows[rows.len() - 1] == j);
                }
            }
            assert forall|k: int| 0 <= k < rows.len() implies i <= #[trigger] rows[k] by {
                if k < taken.len() {
                    assert(rows[k] == taken[k]);
                }
            }
        }
        proof {
            if pairs.len() < DEVICE_MARKETS_LIMIT {
                assert(self.ledger().all_taken(device_id@, rows));
            }
        }
        Ok(pairs)
    }

    fn create_user(&mut self, user: User) -> (r: DbResult<User>) {
        if self.user_position(user.id).is_some() {
            return Err(DbError::Internal("user id is already in use".to_string()));
        }
        if self.device_position(user.market_id, &user.device_id).is_some() {
            return Err(DbError::Internal("device has already joined this market".to_string()));
        }
        self.users.push(user.clone());
        Ok(user)
    }

    fn get_user(&self, id: u128) -> (r: DbResult<User>) {
        match self.user_position(id) {
            Some(i) => Ok(self.users[i].clone()),
            None => Err(DbError::NotFound("User not found".to_string())),
        }
    }

    fn get_user_by_device_id(&self, market_id: u128, device_id: &str) -> (r: DbResult<User>) {
        let wanted: String = device_id.to_string();
        match self.device_position(market_id, &wanted) {
            Some(i) => Ok(self.users[i].clone()),
            None => Err(DbError::NotFound("User not found".to_string())),
        }
    }

    fn get_users_in_market(&self, market_id: u128) -> (r: DbResult<Vec<User>>) {
        let mut out: Vec<User> = Vec::new();
        let mut i: usize = 0;
        proof {
            lemma_filter_start(self.users@, |u: User| u.market_id == market_id);
        }
        while i < self.users.len()
            invariant
                i <= self.users.len(),
                out@ == self.users@.take(i as int).filter(|u: User| u.market_id == market_id),
            decreases self.users.len() - i,
        {
            proof {
                lemma_filter_step(self.users@, |u: User| u.market_id == market_id, i as int);
            }
            if self.users[i].market_id == market_id {
                out.push(self.users[i].clone());
            }
            i += 1;
        }
        assert(self.users@.take(i as int) =~= self.users@);
        Ok(out)
    }

    fn update_user_balance(&mut self, user_id: u128, new_balance: i64) -> (r: DbResult<()>) {
        let mut i: usize = 0;
        while i < self.users.len()
            invariant
                i <= self.users.len(),
                self.users.len() == old(self).users.len(),
                self.markets == old(self).markets,
                self.bets == old(self).bets,
                self.wagers == old(self).wagers,
                forall|j: int|
                    0 <= j < i ==> (#[trigger] self.users[j]) == (if old(self).users[j].id
                        == user_id {
                        user_with_balance(old(self).users[j], new_balance)
                    } else {
                        old(self).users[j]
                    }),
                forall|j: int|
                    i <= j < self.users.len() ==> (#[trigger] self.users[j]) == old(self).users[j],
            decreases self.users.len() - i,
        {
            if self.users[i].id == user_id {
                let mut changed: User = self.users[i].clone();
                changed.balance = new_balance;
                self.users.set(i, changed);
            }
            i += 1;
        }
        assert(self.ledger().users =~= old(self).ledger().with_balance(user_id, new_balance).users);
        Ok(())
    }

    fn create_bet(&mut self, bet: Bet) -> (r: DbResult<Bet>) {
        if self.bet_position(bet.id).is_some() {
            return Err(DbError::Internal("bet id is already in use".to_string()));
        }
        self.bets.push(bet.clone());
        Ok(bet)
    }

    fn get_bet(&self, id: u128) -> (r: DbResult<Bet>) {
        match self.bet_position(id) {
            Some(i) => Ok(self.bets[i].clone()),
            None => Err(DbError::NotFound("Bet not found".to_string())),
        }
    }

    fn get_bets_in_market(&self, market_id: u128) -> (r: DbResult<Vec<Bet>>) {
        let mut out: Vec<Bet> = Vec::new();
        let mut i: usize = 0;
        proof {
            lemma_filter_start(self.bets@, |b: Bet| b.market_id == market_id);
        }
        while i < self.bets.len()
            invariant
                i <= self.bets.len(),
                out@ == self.bets@.take(i as int).filter(|b: Bet| b.market_id == market_id),
            decreases self.bets.len() - i,
        {
            proof {
                lemma_filter_step(self.bets@, |b: Bet| b.market_id == market_id, i as int);
            }
            if self.bets[i].market_id == market_id {
                out.push(self.bets[i].clone());
            }
            i += 1;
        }
        assert(self.bets@.take(i as int) =~= self.bets@);
        Ok(out)
    }

    fn get_bets_for_user(&self, market_id: u128, viewing_user_id: u128) -> (r: DbResult<
        Vec<BetView>,
    >) {
        let bets: Vec<Bet> = match self.get_bets_in_market(market_id) {
            Ok(bets) => bets,
            Err(e) => {
                return Err(e);
            },
        };
        let mut views: Vec<BetView> = Vec::new();
        let mut i: usize = 0;
        while i < bets.len()
            invariant
                i <= bets.len(),
                views.len() == i,
                forall|j: int| 0 <= j < i ==> (#[trigger] views[j]) == bets[j].view_for(viewing_user_id),
            decreases bets.len() - i,
        {
            views.push(bets[i].to_view(viewing_user_id));
            i += 1;
        }
        assert(views@ =~= bets@.map_values(|b: Bet| b.view_for(viewing_user_id)));
        Ok(views)
    }

    fn get_pending_bets(&self, market_id: u128) -> (r: DbResult<Vec<Bet>>) {
        let mut out: Vec<Bet> = Vec::new();
        let mut i: usize = 0;
        proof {
            lemma_filter_start(
                self.bets@,
                |b: Bet| b.market_id == market_id && b.status == BetStatus::Pending,
            );
        }
        while i < self.bets.len()
            invariant
                i <= self.bets.len(),
                out@ == self.bets@.take(i as int).filter(
                    |b: Bet| b.market_id == market_id && b.status == BetStatus::Pending,
                ),
            decreases self.bets.len() - i,
        {
            proof {
                lemma_filter_step(
                    self.bets@,
                    |b: Bet| b.market_id == market_id && b.status == BetStatus::Pending,
                    i as int,
                );
            }
            if self.bets[i].market_id == market_id && self.bets[i].status == BetStatus::Pending {
                out.push(self.bets[i].clone());
            }
            i += 1;
        }
        assert(self.bets@.take(i as int) =~= self.bets@);
        Ok(out)
    }

    fn update_bet_status(&mut self, bet_id: u128, status: BetStatus, now: i64) -> (r: DbResult<
        (),
    >) {
        let resolved_at: Option<i64> = match status {
            BetStatus::ResolvedYes => Some(now),
            BetStatus::ResolvedNo => Some(now),
            _ => None,
        };
        let mut i: usize = 0;
        while i < self.bets.len()
            invariant
                i <= self.bets.len(),
                self.bets.len() == old(self).bets.len(),
                self.markets == old(self).markets,
                self.users == old(self).users,
                self.wagers == old(self).wagers,
                resolved_at == resolution_time(status, now),
                forall|j: int|
                    0 <= j < i ==> (#[trigger] self.bets[j]) == (if old(self).bets[j].id == bet_id {
                        bet_with_status(old(self).bets[j], status, resolved_at)
                    } else {
                        old(self).bets[j]
                    }),
                forall|j: int|
                    i <= j < self.bets.len() ==> (#[trigger] self.bets[j]) == old(self).bets[j],
            decreases self.bets.len() - i,
        {
            if self.bets[i].id == bet_id {
                let mut changed: Bet = self.bets[i].clone();
                changed.status = status;
                changed.resolved_at = resolved_at;
                self.bets.set(i, changed);
            }
            i += 1;
        }
        assert(self.ledger().bets =~= old(self).ledger().with_bet_status(bet_id, status, now).bets);
        Ok(())
    }

    fn update_bet_pools(&mut self, bet_id: u128, yes_pool: i64, no_pool: i64) -> (r: DbResult<
        (),
    >) {
        let mut i: usize = 0;
        while i < self.bets.len()
            invariant
                i <= self.bets.len(),
                self.bets.len() == old(self).bets.len(),
                self.markets == old(self).markets,
                self.users == old(self).users,
                self.wagers == old(self).wagers,
                forall|j: int|
                    0 <= j < i ==> (#[trigger] self.bets[j]) == (if old(self).bets[j].id == bet_id {
                        bet_with_pools(old(self).bets[j], yes_pool, no_pool)
                    } else {
                        old(self).bets[j]
                    }),
                forall|j: int|
                    i <= j < self.bets.len() ==> (#[trigger] self.bets[j]) == old(self).bets[j],
            decreases self.bets.len() - i,
        {
            if self.bets[i].id == bet_id {
                let mut changed: Bet = self.bets[i].clone();
                changed.yes_pool = yes_pool;
                changed.no_pool = no_pool;
                self.bets.set(i, changed);
            }
            i += 1;
        }
        assert(self.ledger().bets =~= old(self).ledger().with_pools(bet_id, yes_pool, no_pool).bets);
        Ok(())
    }

    fn create_wager(&mut self, wager: Wager) -> (r: DbResult<Wager>) {
        if self.wager_position(wager.id).is_some() {
            return Err(DbError::Internal("wager id is already in use".to_string()));
        }
        self.wagers.push(wager);
        Ok(wager)
    }

    fn get_wager(&self, id: u128) -> (r: DbResult<Wager>) {
        match self.wager_position(id) {
            Some(i) => Ok(self.wagers[i]),
            None => Err(DbError::NotFound("Wager not found".to_string())),
        }
    }

    fn get_wagers_for_bet(&self, bet_id: u128) -> (r: DbResult<Vec<Wager>>) {
        let mut out: Vec<Wager> = Vec::new();
        let mut i: usize = 0;
        proof {
            lemma_filter_start(self.wagers@, |w: Wager| w.bet_id == bet_id);
        }
        while i < self.wagers.len()
            invariant
                i <= self.wagers.len(),
                out@ == self.wagers@.take(i as int).filter(|w: Wager| w.bet_id == bet_id),
            decreases self.wagers.len() - i,
        {
            proof {
                lemma_filter_step(self.wagers@, |w: Wager| w.bet_id == bet_id, i as int);
            }
            if self.wagers[i].bet_id == bet_id {
                out.push(self.wagers[i]);
            }
            i += 1;
        }
        assert(self.wagers@.take(i as int) =~= self.wagers@);
        Ok(out)
    }

    fn get_wagers_for_user(&self, user_id: u128) -> (r: DbResult<Vec<Wager>>) {
        let mut out: Vec<Wager> = Vec::new();
        let mut i: usize = 0;
        proof {
            lemma_filter_start(self.wagers@, |w: Wager| w.user_id == user_id);
        }
        while i < self.wagers.len()
            invariant
                i <= self.wagers.len(),
                out@ == self.wagers@.take(i as int).filter(|w: Wager| w.user_id == user_id),
            decreases self.wagers.len() - i,
        {
            proof {
                lemma_filter_step(self.wagers@, |w: Wager| w.user_id == user_id, i as int);
            }
            if self.wagers[i].user_id == user_id {
                out.push(self.wagers[i]);
            }
            i += 1;
        }
        assert(self.wagers@.take(i as int) =~= self.wagers@);
        Ok(out)
    }

    fn get_bets_about_user(&self, user_id: u128) -> (r: DbResult<Vec<Bet>>) {
        let mut out: Vec<Bet> = Vec::new();
        let mut i: usize = 0;
        proof {
            lemma_filter_start(self.bets@, |b: Bet| b.subject_user_id == user_id);
        }
        while i < self.bets.len()
            invariant
                i <= self.bets.len(),
                out@ == self.bets@.take(i as int).filter(|b: Bet| b.subject_user_id == user_id),
            decreases self.bets.len() - i,
        {
            proof {
                lemma_filter_step(self.bets@, |b: Bet| b.subject_user_id == user_id, i as int);
            }
            if self.bets[i].subject_user_id == user_id {
                out.push(self.bets[i].clone());
            }
            i += 1;
        }
        assert(self.bets@.take(i as int) =~= self.bets@);
        Ok(out)
    }
}

} // verus!
