//! The abstract state of a store: four tables, each a sequence of rows in
//! the order in which they were inserted.
//!
//! Lookups return the first row that matches, listings keep the table's
//! order, and updates change every row that matches, as the statements of a
//! relational store do.

use vstd::prelude::*;
use crate::domain::models::{Bet, BetStatus, BetView, Market, MarketStatus, User, Wager};

verus! {

/// The first element of `s` that satisfies `p`.
pub open spec fn first_where<T>(s: Seq<T>, p: spec_fn(T) -> bool) -> Option<T>
    decreases s.len(),
{
    if s.len() == 0 {
        None
    } else if p(s[0]) {
        Some(s[0])
    } else {
        first_where(s.drop_first(), p)
    }
}

/// The element at `k` is the first that satisfies `p` if none before it
/// does.
pub proof fn lemma_first_where_found<T>(s: Seq<T>, p: spec_fn(T) -> bool, k: int)
    requires
        0 <= k < s.len(),
        p(s[k]),
        forall|i: int| 0 <= i < k ==> !p(#[trigger] s[i]),
    ensures
        first_where(s, p) == Some(s[k]),
    decreases s.len(),
{
    if k > 0 {
        let rest = s.drop_first();
        assert(rest[k - 1] == s[k]);
        assert forall|i: int| 0 <= i < k - 1 implies !p(#[trigger] rest[i]) by {
            assert(rest[i] == s[i + 1]);
        }
        lemma_first_where_found(rest, p, k - 1);
    }
}

/// Nothing is found where no element satisfies `p`.
pub proof fn lemma_first_where_none<T>(s: Seq<T>, p: spec_fn(T) -> bool)
    requires
        forall|i: int| 0 <= i < s.len() ==> !p(#[trigger] s[i]),
    ensures
        first_where(s, p) is None,
    decreases s.len(),
{
    if s.len() > 0 {
        let rest = s.drop_first();
        assert forall|i: int| 0 <= i < rest.len() implies !p(#[trigger] rest[i]) by {
            assert(rest[i] == s[i + 1]);
        }
        lemma_first_where_none(rest, p);
    }
}

/// What is found satisfies `p` and is an element of `s`; nothing is found
/// only where no element satisfies `p`.
pub proof fn lemma_first_where_sound<T>(s: Seq<T>, p: spec_fn(T) -> bool)
    ensures
        first_where(s, p) matches Some(x) ==> p(x) && s.contains(x),
        first_where(s, p) is None ==> forall|i: int| 0 <= i < s.len() ==> !p(#[trigger] s[i]),
    decreases s.len(),
{
    if s.len() > 0 {
        let rest = s.drop_first();
        lemma_first_where_sound(rest, p);
        if p(s[0]) {
        } else {
            if first_where(rest, p) is Some {
                let x = first_where(rest, p)->0;
                let i = choose|i: int| 0 <= i < rest.len() && rest[i] == x;
                assert(s[i + 1] == x);
            } else {
                assert forall|i: int| 0 <= i < s.len() implies !p(#[trigger] s[i]) by {
                    if i > 0 {
                        assert(rest[i - 1] == s[i]);
                    }
                }
            }
        }
    }
}

/// Filtering no elements leaves none.
pub proof fn lemma_filter_start<T>(s: Seq<T>, p: spec_fn(T) -> bool)
    ensures
        s.take(0).filter(p) == Seq::<T>::empty(),
{
    reveal(Seq::filter);
    assert(s.take(0) =~= Seq::<T>::empty());
}

/// Filtering the first `k + 1` elements is filtering the first `k` and
/// then keeping or dropping the element at `k`.
pub proof fn lemma_filter_step<T>(s: Seq<T>, p: spec_fn(T) -> bool, k: int)
    requires
        0 <= k < s.len(),
    ensures
        s.take(k + 1).filter(p) == (if p(s[k]) {
            s.take(k).filter(p).push(s[k])
        } else {
            s.take(k).filter(p)
        }),
{
    reveal(Seq::filter);
    assert(s.take(k + 1).drop_last() =~= s.take(k));
}

/// Filtering a sequence with one more element is filtering the sequence
/// and then keeping or dropping that element.
pub proof fn lemma_filter_push<T>(s: Seq<T>, p: spec_fn(T) -> bool, x: T)
    ensures
        s.push(x).filter(p) == (if p(x) {
            s.filter(p).push(x)
        } else {
            s.filter(p)
        }),
{
    reveal(Seq::filter);
    assert(s.push(x).drop_last() =~= s);
}

/// Filtering leaves nothing where no element is wanted.
pub proof fn lemma_filter_nothing<T>(s: Seq<T>, p: spec_fn(T) -> bool)
    requires
        forall|i: int| 0 <= i < s.len() ==> !p(#[trigger] s[i]),
    ensures
        s.filter(p) == Seq::<T>::empty(),
    decreases s.len(),
{
    reveal(Seq::filter);
    if s.len() > 0 {
        assert forall|i: int| 0 <= i < s.drop_last().len() implies !p(
            #[trigger] s.drop_last()[i],
        ) by {
            assert(s.drop_last()[i] == s[i]);
        }
        lemma_filter_nothing(s.drop_last(), p);
        assert(!p(s[s.len() - 1]));
    }
}

/// What filtering keeps was in the sequence and is wanted; and what was in
/// the sequence and is wanted is kept.
pub proof fn lemma_filter_members<T>(s: Seq<T>, p: spec_fn(T) -> bool)
    ensures
        forall|k: int|
            0 <= k < s.filter(p).len() ==> p(#[trigger] s.filter(p)[k]) && s.contains(
                s.filter(p)[k],
            ),
        forall|i: int| 0 <= i < s.len() && p(#[trigger] s[i]) ==> s.filter(p).contains(s[i]),
    decreases s.len(),
{
    reveal(Seq::filter);
    if s.len() > 0 {
        let init = s.drop_last();
        let last = s.last();
        lemma_filter_members(init, p);
        assert forall|k: int| 0 <= k < s.filter(p).len() implies p(#[trigger] s.filter(p)[k])
            && s.contains(s.filter(p)[k]) by {
            if k < init.filter(p).len() {
                let x = init.filter(p)[k];
                assert(init.contains(x));
                let i = choose|i: int| 0 <= i < init.len() && init[i] == x;
                assert(s[i] == x);
            } else {
                assert(s[s.len() - 1] == last);
            }
        }
        assert forall|i: int| 0 <= i < s.len() && p(#[trigger] s[i]) implies s.filter(p).contains(
            s[i],
        ) by {
            if i < init.len() {
                assert(init[i] == s[i]);
                assert(init.filter(p).contains(s[i]));
                let k = choose|k: int| 0 <= k < init.filter(p).len() && init.filter(p)[k] == s[i];
                assert(s.filter(p)[k] == s[i]);
            } else {
                assert(s.filter(p)[s.filter(p).len() - 1] == s[i]);
            }
        }
    }
}

/// Filtering twice is filtering once where the second filter wants only
/// what the first one keeps.
pub proof fn lemma_filter_twice<T>(s: Seq<T>, p: spec_fn(T) -> bool, q: spec_fn(T) -> bool)
    requires
        forall|i: int| 0 <= i < s.len() && q(#[trigger] s[i]) ==> p(s[i]),
    ensures
        s.filter(p).filter(q) == s.filter(q),
    decreases s.len(),
{
    reveal(Seq::filter);
    if s.len() > 0 {
        let init = s.drop_last();
        assert forall|i: int| 0 <= i < init.len() && q(#[trigger] init[i]) implies p(init[i]) by {
            assert(init[i] == s[i]);
        }
        lemma_filter_twice(init, p, q);
        assert(s[s.len() - 1] == s.last());
        if p(s.last()) {
            lemma_filter_push(init.filter(p), q, s.last());
        }
    }
}

/// A change of the elements that does not change what is looked for does
/// not change which element is found.
pub proof fn lemma_first_where_map<T>(s: Seq<T>, p: spec_fn(T) -> bool, f: spec_fn(T) -> T)
    requires
        forall|x: T| p(#[trigger] f(x)) == p(x),
    ensures
        first_where(s.map_values(f), p) == (match first_where(s, p) {
            Some(x) => Some(f(x)),
            None => None,
        }),
    decreases s.len(),
{
    if s.len() > 0 {
        assert(s.map_values(f).drop_first() =~= s.drop_first().map_values(f));
        lemma_first_where_map(s.drop_first(), p, f);
    }
}

/// One more element at the end is found only where nothing was found
/// before.
pub proof fn lemma_first_where_push<T>(s: Seq<T>, p: spec_fn(T) -> bool, x: T)
    ensures
        first_where(s.push(x), p) == (if first_where(s, p) is Some {
            first_where(s, p)
        } else if p(x) {
            Some(x)
        } else {
            None
        }),
    decreases s.len(),
{
    if s.len() > 0 {
        assert(s.push(x).drop_first() =~= s.drop_first().push(x));
        lemma_first_where_push(s.drop_first(), p, x);
    } else {
        assert(s.push(x).drop_first() =~= s);
    }
}

/// Any two elements of `s` differ in the given sense.
pub open spec fn pairwise<T>(s: Seq<T>, differ: spec_fn(T, T) -> bool) -> bool {
    forall|i: int, j: int| 0 <= i < j < s.len() ==> #[trigger] differ(s[i], s[j])
}

/// One more element that differs from all others keeps the elements
/// different.
pub proof fn lemma_pairwise_push<T>(s: Seq<T>, differ: spec_fn(T, T) -> bool, x: T)
    requires
        pairwise(s, differ),
        forall|i: int| 0 <= i < s.len() ==> #[trigger] differ(s[i], x),
    ensures
        pairwise(s.push(x), differ),
{
    let grown = s.push(x);
    assert forall|i: int, j: int| 0 <= i < j < grown.len() implies #[trigger] differ(
        grown[i],
        grown[j],
    ) by {
        if j < s.len() {
            assert(differ(s[i], s[j]));
        } else {
            assert(differ(s[i], x));
        }
    }
}

/// A change of the elements that keeps different elements different keeps
/// the elements different.
pub proof fn lemma_pairwise_map<T>(s: Seq<T>, differ: spec_fn(T, T) -> bool, f: spec_fn(T) -> T)
    requires
        pairwise(s, differ),
        forall|a: T, b: T| #[trigger] differ(a, b) ==> differ(f(a), f(b)),
    ensures
        pairwise(s.map_values(f), differ),
{
    let changed = s.map_values(f);
    assert forall|i: int, j: int| 0 <= i < j < changed.len() implies #[trigger] differ(
        changed[i],
        changed[j],
    ) by {
        assert(differ(s[i], s[j]));
    }
}

/// Filtering keeps the elements different.
pub proof fn lemma_pairwise_filter<T>(
    s: Seq<T>,
    differ: spec_fn(T, T) -> bool,
    keep: spec_fn(T) -> bool,
)
    requires
        pairwise(s, differ),
    ensures
        pairwise(s.filter(keep), differ),
    decreases s.len(),
{
    reveal(Seq::filter);
    if s.len() > 0 {
        let init = s.drop_last();
        assert forall|i: int, j: int| 0 <= i < j < init.len() implies #[trigger] differ(
            init[i],
            init[j],
        ) by {
            assert(differ(s[i], s[j]));
        }
        lemma_pairwise_filter(init, differ, keep);
        lemma_filter_members(init, keep);
        let kept = s.filter(keep);
        assert forall|i: int, j: int| 0 <= i < j < kept.len() implies #[trigger] differ(
            kept[i],
            kept[j],
        ) by {
            if j < init.filter(keep).len() {
                assert(differ(init.filter(keep)[i], init.filter(keep)[j]));
            } else {
                let x = init.filter(keep)[i];
                assert(init.contains(x));
                let k = choose|k: int| 0 <= k < init.len() && init[k] == x;
                assert(differ(s[k], s[s.len() - 1]));
            }
        }
    }
}

/// The market `m` with another status.
pub open spec fn market_with_status(m: Market, status: MarketStatus) -> Market {
    Market {
        id: m.id,
        name: m.name,
        status: status,
        created_by: m.created_by,
        opens_at: m.opens_at,
        closes_at: m.closes_at,
        starting_balance: m.starting_balance,
        invite_code: m.invite_code,
        created_at: m.created_at,
    }
}

/// The user `u` with another balance.
pub open spec fn user_with_balance(u: User, balance: i64) -> User {
    User {
        id: u.id,
        market_id: u.market_id,
        device_id: u.device_id,
        display_name: u.display_name,
        avatar: u.avatar,
        balance: balance,
        is_admin: u.is_admin,
        joined_at: u.joined_at,
    }
}

/// The bet `b` with another status and resolution time.
pub open spec fn bet_with_status(b: Bet, status: BetStatus, resolved_at: Option<i64>) -> Bet {
    Bet {
        id: b.id,
        market_id: b.market_id,
        subject_user_id: b.subject_user_id,
        created_by: b.created_by,
        description: b.description,
        initial_odds: b.initial_odds,
        status: status,
        yes_pool: b.yes_pool,
        no_pool: b.no_pool,
        hide_from_subject: b.hide_from_subject,
        created_at: b.created_at,
        resolved_at: resolved_at,
    }
}

/// The bet `b` with other pools.
pub open spec fn bet_with_pools(b: Bet, yes_pool: i64, no_pool: i64) -> Bet {
    Bet {
        id: b.id,
        market_id: b.market_id,
        subject_user_id: b.subject_user_id,
        created_by: b.created_by,
        description: b.description,
        initial_odds: b.initial_odds,
        status: b.status,
        yes_pool: yes_pool,
        no_pool: no_pool,
        hide_from_subject: b.hide_from_subject,
        created_at: b.created_at,
        resolved_at: b.resolved_at,
    }
}

/// The resolution time that a store records with a status: the given time
/// for a resolution, none for any other status.
pub open spec fn resolution_time(status: BetStatus, now: i64) -> Option<i64> {
    if status == BetStatus::ResolvedYes || status == BetStatus::ResolvedNo {
        Some(now)
    } else {
        None
    }
}

/// The abstract state of a store.
pub struct Ledger {
    pub markets: Seq<Market>,
    pub users: Seq<User>,
    pub bets: Seq<Bet>,
    pub wagers: Seq<Wager>,
}

impl Ledger {
    /// The state of a store that holds nothing.
    pub open spec fn empty() -> Ledger {
        Ledger { markets: Seq::empty(), users: Seq::empty(), bets: Seq::empty(), wagers: Seq::empty() }
    }

    /// The first market with the identifier.
    pub open spec fn find_market(self, id: u128) -> Option<Market> {
        first_where(self.markets, |m: Market| m.id == id)
    }

    /// The first market with the invite code.
    pub open spec fn find_market_by_code(self, code: Seq<char>) -> Option<Market> {
        first_where(self.markets, |m: Market| m.invite_code@ == code)
    }

    /// The first user with the identifier.
    pub open spec fn find_user(self, id: u128) -> Option<User> {
        first_where(self.users, |u: User| u.id == id)
    }

    /// The first user of the market who joined from the device.
    pub open spec fn find_user_by_device(self, market_id: u128, device_id: Seq<char>) -> Option<
        User,
    > {
        first_where(self.users, |u: User| u.market_id == market_id && u.device_id@ == device_id)
    }

    /// The first bet with the identifier.
    pub open spec fn find_bet(self, id: u128) -> Option<Bet> {
        first_where(self.bets, |b: Bet| b.id == id)
    }

    /// The users of the market.
    pub open spec fn users_in(self, market_id: u128) -> Seq<User> {
        self.users.filter(|u: User| u.market_id == market_id)
    }

    /// The bets of the market.
    pub open spec fn bets_in(self, market_id: u128) -> Seq<Bet> {
        self.bets.filter(|b: Bet| b.market_id == market_id)
    }

    /// The bets of the market that await approval.
    pub open spec fn pending_bets_in(self, market_id: u128) -> Seq<Bet> {
        self.bets.filter(|b: Bet| b.market_id == market_id && b.status == BetStatus::Pending)
    }

    /// The bets whose subject is the user.
    pub open spec fn bets_about(self, user_id: u128) -> Seq<Bet> {
        self.bets.filter(|b: Bet| b.subject_user_id == user_id)
    }

    /// The bets of the market as the viewer may see them.
    pub open spec fn bet_views_for(self, market_id: u128, viewer: u128) -> Seq<BetView> {
        self.bets_in(market_id).map_values(|b: Bet| b.view_for(viewer))
    }

    /// The wagers on the bet, in the order in which they were placed.
    pub open spec fn wagers_for_bet(self, bet_id: u128) -> Seq<Wager> {
        self.wagers.filter(|w: Wager| w.bet_id == bet_id)
    }

    /// The wagers of the user.
    pub open spec fn wagers_for_user(self, user_id: u128) -> Seq<Wager> {
        self.wagers.filter(|w: Wager| w.user_id == user_id)
    }

    /// The user at `i` joined from the device, in a market that exists.
    pub open spec fn joined_from(self, i: int, device_id: Seq<char>) -> bool {
        &&& 0 <= i < self.users.len()
        &&& self.users[i].device_id@ == device_id
        &&& self.find_market(self.users[i].market_id) is Some
    }

    /// The pairs are taken from the rows `rows` of the users: each pair is
    /// a user who joined from the device, in a market that exists, with
    /// that market, and no row is taken twice.
    pub open spec fn taken_from(
        self,
        device_id: Seq<char>,
        pairs: Seq<(Market, User)>,
        rows: Seq<int>,
    ) -> bool {
        &&& rows.len() == pairs.len()
        &&& forall|k: int|
            0 <= k < pairs.len() ==> {
                &&& self.joined_from(#[trigger] rows[k], device_id)
                &&& pairs[k].1 == self.users[rows[k]]
                &&& self.find_market(pairs[k].1.market_id) == Some(pairs[k].0)
            }
        &&& forall|j: int, k: int| 0 <= j < k < rows.len() ==> rows[j] != rows[k]
    }

    /// The rows hold every user who joined from the device in a market that
    /// exists.
    pub open spec fn all_taken(self, device_id: Seq<char>, rows: Seq<int>) -> bool {
        forall|i: int| #[trigger] self.joined_from(i, device_id) ==> rows.contains(i)
    }

    /// The pairs list the markets that the device has joined, each with the
    /// device's user in it. Every pair stands for another user. All users
    /// of the device are listed, or, where there are more than `limit`,
    /// `limit` of them.
    pub open spec fn device_listing(
        self,
        device_id: Seq<char>,
        pairs: Seq<(Market, User)>,
        limit: int,
    ) -> bool {
        &&& pairs.len() <= limit
        &&& exists|rows: Seq<int>|
            {
                &&& #[trigger] self.taken_from(device_id, pairs, rows)
                &&& pairs.len() < limit ==> self.all_taken(device_id, rows)
            }
    }

    /// The store takes `market` as a new row: its id and its invite code
    /// are not in use.
    pub open spec fn accepts_market(self, market: Market) -> bool {
        self.find_market(market.id) is None && self.find_market_by_code(market.invite_code@)
            is None
    }

    /// The store takes `user` as a new row: its id is not in use, and its
    /// device has not joined its market.
    pub open spec fn accepts_user(self, user: User) -> bool {
        self.find_user(user.id) is None && self.find_user_by_device(
            user.market_id,
            user.device_id@,
        ) is None
    }

    /// The store takes `bet` as a new row: its id is not in use.
    pub open spec fn accepts_bet(self, bet: Bet) -> bool {
        self.find_bet(bet.id) is None
    }

    /// The first wager with the identifier.
    pub open spec fn find_wager(self, id: u128) -> Option<Wager> {
        first_where(self.wagers, |w: Wager| w.id == id)
    }

    /// The store takes `wager` as a new row: its id is not in use.
    pub open spec fn accepts_wager(self, wager: Wager) -> bool {
        self.find_wager(wager.id) is None
    }

    /// The state with one more market.
    pub open spec fn with_market(self, market: Market) -> Ledger {
        Ledger { markets: self.markets.push(market), ..self }
    }

    /// The state with one more user.
    pub open spec fn with_user(self, user: User) -> Ledger {
        Ledger { users: self.users.push(user), ..self }
    }

    /// The state with one more bet.
    pub open spec fn with_bet(self, bet: Bet) -> Ledger {
        Ledger { bets: self.bets.push(bet), ..self }
    }

    /// The state with one more wager.
    pub open spec fn with_wager(self, wager: Wager) -> Ledger {
        Ledger { wagers: self.wagers.push(wager), ..self }
    }

    /// The state with the status of the market set.
    pub open spec fn with_market_status(self, id: u128, status: MarketStatus) -> Ledger {
        Ledger {
            markets: self.markets.map_values(
                |m: Market|
                    if m.id == id {
                        market_with_status(m, status)
                    } else {
                        m
                    },
            ),
            ..self
        }
    }

    /// The state with the balance of the user set.
    pub open spec fn with_balance(self, user_id: u128, balance: i64) -> Ledger {
        Ledger {
            users: self.users.map_values(
                |u: User|
                    if u.id == user_id {
                        user_with_balance(u, balance)
                    } else {
                        u
                    },
            ),
            ..self
        }
    }

    /// The state with the status of the bet set, and its resolution time
    /// set or cleared to match.
    pub open spec fn with_bet_status(self, bet_id: u128, status: BetStatus, now: i64) -> Ledger {
        Ledger {
            bets: self.bets.map_values(
                |b: Bet|
                    if b.id == bet_id {
                        bet_with_status(b, status, resolution_time(status, now))
                    } else {
                        b
                    },
            ),
            ..self
        }
    }

    /// The state with the pools of the bet set.
    pub open spec fn with_pools(self, bet_id: u128, yes_pool: i64, no_pool: i64) -> Ledger {
        Ledger {
            bets: self.bets.map_values(
                |b: Bet|
                    if b.id == bet_id {
                        bet_with_pools(b, yes_pool, no_pool)
                    } else {
                        b
                    },
            ),
            ..self
        }
    }

    /// The state without the market `id` and everything that belongs to it:
    /// its users, its bets, and the wagers on those bets.
    pub open spec fn without_market(self, id: u128) -> Ledger {
        Ledger {
            markets: self.markets.filter(|m: Market| m.id != id),
            users: self.users.filter(|u: User| u.market_id != id),
            bets: self.bets.filter(|b: Bet| b.market_id != id),
            wagers: self.wagers.filter(
                |w: Wager|
                    !(self.find_bet(w.bet_id) matches Some(b) && b.market_id == id),
            ),
        }
    }
}

} // verus!
