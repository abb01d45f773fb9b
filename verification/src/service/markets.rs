//! The operations on markets: creating, joining, opening, closing,
//! resolving and deleting.

use vstd::prelude::*;
use vstd::string::*;
use crate::db::error::{DbError, DbResult};
use crate::db::interface::Database;
use crate::db::ledger::Ledger;
use crate::domain::models::{Market, MarketStatus, User};
use crate::host::{fresh_id, now_millis};
use crate::service::engine::CazinoService;
use crate::service::invite::{choose_invite_code, invite_code_valid};
use crate::service::plans::{
    admin_only, admin_only_text, closing_time, closing_time_of, drafted_market, founding_admin,
    joining_member, new_market, new_member, plan_transition, transition_rejection,
    CreateMarketParams,
};

verus! {

/// The message for a market whose closing time cannot be represented.
pub open spec fn duration_text() -> Seq<char> {
    "Market duration is out of range"@
}

/// What the creation of a market does, for the identifiers, invite code and
/// time that the host supplied: it adds the market in draft and its admin.
/// It is refused where the closing time cannot be represented, and it fails
/// where the store does not accept one of the two rows.
pub open spec fn market_creation_outcome(
    before: Ledger,
    reliable: bool,
    params: CreateMarketParams,
    market_id: u128,
    admin_id: u128,
    invite_code: String,
    now: i64,
    r: DbResult<(Market, User)>,
    after: Ledger,
) -> bool {
    let closes = closing_time_of(now, params.duration_hours);
    let market = drafted_market(params, market_id, admin_id, invite_code, now, closes as i64);
    let admin = founding_admin(params, market_id, admin_id, now);
    &&& r matches Ok(pair) ==> {
        &&& i64::MIN <= closes <= i64::MAX
        &&& pair.0 == market
        &&& pair.1 == admin
        &&& before.accepts_market(market)
        &&& before.accepts_user(admin)
        &&& after == before.with_market(market).with_user(admin)
    }
    &&& r matches Err(e) ==> {
        &&& after == before || (!reliable && before.accepts_market(market) && after
            == before.with_market(market))
        &&& !(i64::MIN <= closes <= i64::MAX) ==> (e matches DbError::Constraint(text) && text@
            == duration_text())
    }
    &&& reliable ==> (r is Ok <==> i64::MIN <= closes <= i64::MAX && before.accepts_market(market)
        && before.accepts_user(admin))
}

/// What joining a market does, for the identifier and time that the host
/// supplied: a device that has joined the market before gets its user back
/// as it is, whatever name and avatar it sends now, and nothing changes; a
/// device that is new to the market gets a new user with the market's
/// starting balance.
pub open spec fn join_outcome(
    before: Ledger,
    reliable: bool,
    invite_code: String,
    device_id: String,
    display_name: String,
    avatar: String,
    user_id: u128,
    now: i64,
    r: DbResult<(Market, User)>,
    after: Ledger,
) -> bool {
    &&& r matches Ok(pair) ==> {
        &&& before.find_market_by_code(invite_code@) == Some(pair.0)
        &&& {
            ||| (before.find_user_by_device(pair.0.id, device_id@) == Some(pair.1) && after
                == before)
            ||| (pair.1 == joining_member(pair.0, user_id, device_id, display_name, avatar, now)
                && before.accepts_user(pair.1) && after == before.with_user(pair.1))
        }
    }
    &&& r is Err ==> after == before
    &&& reliable ==> match before.find_market_by_code(invite_code@) {
        None => r matches Err(e) && e is NotFound,
        Some(market) => match before.find_user_by_device(market.id, device_id@) {
            Some(user) => r == Ok::<(Market, User), DbError>((market, user)) && after == before,
            None => (r is Ok <==> before.find_user(user_id) is None) && (r matches Ok(pair)
                ==> pair.0 == market && pair.1 == joining_member(
                market,
                user_id,
                device_id,
                display_name,
                avatar,
                now,
            )),
        },
    }
}

/// What a change of a market's status does: it is refused, for a user who
/// is no admin or a market that is past the target stage, and otherwise
/// sets the status of the market.
pub open spec fn transition_outcome(
    before: Ledger,
    reliable: bool,
    market_id: u128,
    admin_id: u128,
    target: MarketStatus,
    r: DbResult<()>,
    after: Ledger,
) -> bool {
    &&& r is Ok ==> {
        &&& before.find_user(admin_id) matches Some(admin)
        &&& before.find_market(market_id) matches Some(market)
        &&& transition_rejection(market, admin, target) is None
        &&& after == before.with_market_status(market_id, target)
    }
    &&& r is Err ==> after == before
    &&& reliable ==> match before.find_user(admin_id) {
        None => r matches Err(e) && e is NotFound,
        Some(admin) => if !admin.is_admin {
            r matches Err(DbError::Constraint(text)) && text@ == admin_only_text()
        } else {
            match before.find_market(market_id) {
                None => r matches Err(e) && e is NotFound,
                Some(market) => match transition_rejection(market, admin, target) {
                    Some(reason) => r matches Err(DbError::Constraint(text)) && text@ == reason,
                    None => r is Ok,
                },
            }
        },
    }
}

/// What the deletion of a market does: it is refused for a user who is no
/// admin, and otherwise removes the market with all that belongs to it.
pub open spec fn deletion_outcome(
    before: Ledger,
    reliable: bool,
    market_id: u128,
    admin_id: u128,
    r: DbResult<()>,
    after: Ledger,
) -> bool {
    &&& r is Ok ==> {
        &&& before.find_user(admin_id) matches Some(admin)
        &&& admin.is_admin
        &&& after == before.without_market(market_id)
    }
    &&& r is Err ==> after == before
    &&& reliable ==> match before.find_user(admin_id) {
        None => r matches Err(e) && e is NotFound,
        Some(admin) => if !admin.is_admin {
            r matches Err(DbError::Constraint(text)) && text@ == admin_only_text()
        } else {
            r is Ok
        },
    }
}

impl<D: Database> CazinoService<D> {
    /// Create a new market with the identifiers, invite code and time that
    /// the host supplied.
    pub fn create_market_with(
        &mut self,
        params: CreateMarketParams,
        market_id: u128,
        admin_id: u128,
        invite_code: String,
        now: i64,
    ) -> (r: DbResult<(Market, User)>)
        ensures
            final(self).reliable() == old(self).reliable(),
            market_creation_outcome(
                old(self).ledger(),
                old(self).reliable(),
                params,
                market_id,
                admin_id,
                invite_code,
                now,
                r,
                final(self).ledger(),
            ),
    {
        let closes_at: i64 = match closing_time(now, params.duration_hours) {
            Some(closes_at) => closes_at,
            None => {
                return Err(DbError::Constraint("Market duration is out of range".to_string()));
            },
        };
        let (market, admin): (Market, User) = new_market(
            params,
            market_id,
            admin_id,
            invite_code,
            now,
            closes_at,
        );
        if self.db.get_user(admin_id).is_ok() {
            return Err(DbError::Internal("user id is already in use".to_string()));
        }
        if self.db.get_user_by_device_id(market_id, admin.device_id.as_str()).is_ok() {
            return Err(DbError::Internal("device has already joined this market".to_string()));
        }
        match self.db.create_market(market.clone()) {
            Ok(_) => {},
            Err(e) => {
                return Err(e);
            },
        }
        match self.db.create_user(admin.clone()) {
            Ok(_) => {},
            Err(e) => {
                return Err(e);
            },
        }
        Ok((market, admin))
    }

    /// Create a new market.
    ///
    /// The market starts in draft. Its invite code is the custom code if
    /// that is an invite code, else a random one. Its admin holds the
    /// starting balance.
    pub fn create_market(&mut self, params: CreateMarketParams) -> (r: DbResult<(Market, User)>)
        ensures
            final(self).reliable() == old(self).reliable(),
            exists|market_id: u128, admin_id: u128, invite_code: String, now: i64|
                {
                    &&& invite_code_valid(invite_code@)
                    &&& params.custom_invite_code matches Some(custom) ==> (invite_code_valid(
                        custom@,
                    ) ==> invite_code == custom)
                    &&& #[trigger] market_creation_outcome(
                        old(self).ledger(),
                        old(self).reliable(),
                        params,
                        market_id,
                        admin_id,
                        invite_code,
                        now,
                        r,
                        final(self).ledger(),
                    )
                },
    {
        let now: i64 = now_millis();
        let market_id: u128 = fresh_id();
        let admin_id: u128 = fresh_id();
        let invite_code: String = choose_invite_code(params.custom_invite_code.clone());
        let code: String = invite_code.clone();
        let r = self.create_market_with(params, market_id, admin_id, code, now);
        proof {
            assert(market_creation_outcome(
                old(self).ledger(),
                old(self).reliable(),
                params,
                market_id,
                admin_id,
                invite_code,
                now,
                r,
                self.ledger(),
            ));
        }
        r
    }

    /// Join a market with the identifier and time that the host supplied.
    pub fn join_market_with(
        &mut self,
        invite_code: String,
        device_id: String,
        display_name: String,
        avatar: String,
        user_id: u128,
        now: i64,
    ) -> (r: DbResult<(Market, User)>)
        ensures
            final(self).reliable() == old(self).reliable(),
            join_outcome(
                old(self).ledger(),
                old(self).reliable(),
                invite_code,
                device_id,
                display_name,
                avatar,
                user_id,
                now,
                r,
                final(self).ledger(),
            ),
    {
        let market: Market = match self.db.get_market_by_invite_code(invite_code.as_str()) {
            Ok(market) => market,
            Err(e) => {
                return Err(e);
            },
        };
        match self.db.get_user_by_device_id(market.id, device_id.as_str()) {
            Ok(existing) => {
                return Ok((market, existing));
            },
            Err(_) => {},
        }
        let user: User = new_member(&market, user_id, device_id, display_name, avatar, now);
        match self.db.create_user(user.clone()) {
            Ok(_) => {},
            Err(e) => {
                return Err(e);
            },
        }
        Ok((market, user))
    }

    /// Join an existing market.
    ///
    /// A device that has joined the market before gets its user back as it
    /// is: the display name and avatar that it sends now are ignored.
    pub fn join_market(
        &mut self,
        invite_code: String,
        device_id: String,
        display_name: String,
        avatar: String,
    ) -> (r: DbResult<(Market, User)>)
        ensures
            final(self).reliable() == old(self).reliable(),
            exists|user_id: u128, now: i64| #[trigger]
                join_outcome(
                    old(self).ledger(),
                    old(self).reliable(),
                    invite_code,
                    device_id,
                    display_name,
                    avatar,
                    user_id,
                    now,
                    r,
                    final(self).ledger(),
                ),
    {
        let user_id: u128 = fresh_id();
        let now: i64 = now_millis();
        self.join_market_with(invite_code, device_id, display_name, avatar, user_id, now)
    }

    fn move_market(&mut self, market_id: u128, admin_id: u128, target: MarketStatus) -> (r:
        DbResult<()>)
        ensures
            final(self).reliable() == old(self).reliable(),
            transition_outcome(
                old(self).ledger(),
                old(self).reliable(),
                market_id,
                admin_id,
                target,
                r,
                final(self).ledger(),
            ),
    {
        let admin: User = match self.db.get_user(admin_id) {
            Ok(admin) => admin,
            Err(e) => {
                return Err(e);
            },
        };
        if !admin.is_admin {
            return Err(admin_only());
        }
        let market: Market = match self.db.get_market(market_id) {
            Ok(market) => market,
            Err(e) => {
                return Err(e);
            },
        };
        match plan_transition(&market, &admin, target) {
            Ok(()) => {},
            Err(e) => {
                return Err(e);
            },
        }
        self.db.update_market_status(market_id, target)
    }

    /// Open a market for betting.
    pub fn open_market(&mut self, market_id: u128, admin_id: u128) -> (r: DbResult<()>)
        ensures
            final(self).reliable() == old(self).reliable(),
            transition_outcome(
                old(self).ledger(),
                old(self).reliable(),
                market_id,
                admin_id,
                MarketStatus::Open,
                r,
                final(self).ledger(),
            ),
    {
        self.move_market(market_id, admin_id, MarketStatus::Open)
    }

    /// Close a market: end the betting period.
    pub fn close_market(&mut self, market_id: u128, admin_id: u128) -> (r: DbResult<()>)
        ensures
            final(self).reliable() == old(self).reliable(),
            transition_outcome(
                old(self).ledger(),
                old(self).reliable(),
                market_id,
                admin_id,
                MarketStatus::Closed,
                r,
                final(self).ledger(),
            ),
    {
        self.move_market(market_id, admin_id, MarketStatus::Closed)
    }

    /// Resolve a market: all bets are settled and the results are final.
    pub fn resolve_market(&mut self, market_id: u128, admin_id: u128) -> (r: DbResult<()>)
        ensures
            final(self).reliable() == old(self).reliable(),
            transition_outcome(
                old(self).ledger(),
                old(self).reliable(),
                market_id,
                admin_id,
                MarketStatus::Resolved,
                r,
                final(self).ledger(),
            ),
    {
        self.move_market(market_id, admin_id, MarketStatus::Resolved)
    }

    /// Delete a market and all that belongs to it.
    pub fn delete_market(&mut self, market_id: u128, admin_id: u128) -> (r: DbResult<()>)
        ensures
            final(self).reliable() == old(self).reliable(),
            deletion_outcome(
                old(self).ledger(),
                old(self).reliable(),
                market_id,
                admin_id,
                r,
                final(self).ledger(),
            ),
    {
        let admin: User = match self.db.get_user(admin_id) {
            Ok(admin) => admin,
            Err(e) => {
                return Err(e);
            },
        };
        if !admin.is_admin {
            return Err(admin_only());
        }
        self.db.delete_market(market_id)
    }
}

} // verus!
