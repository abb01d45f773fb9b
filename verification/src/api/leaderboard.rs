//! The leaderboard of a market: its users by balance, richest first.
//!
//! Ranks are positions. Users with equal balances keep the order in which
//! the store lists them and get consecutive ranks, never a shared one.

use vstd::prelude::*;
use crate::domain::models::{Market, User};

verus! {

/// A user with their standing in the market.
#[derive(Debug)]
pub struct UserWithStats {
    pub user: User,
    /// The user's balance less the market's starting balance.
    pub profit: i64,
    /// The user's position on the leaderboard, from 1.
    pub rank: usize,
}

/// The leaderboard of a market.
#[derive(Debug)]
pub struct LeaderboardResponse {
    pub users: Vec<UserWithStats>,
}

/// No user is followed by a richer one.
pub open spec fn richest_first(users: Seq<User>) -> bool {
    forall|i: int, j: int|
        0 <= i <= j < users.len() ==> (#[trigger] users[i]).balance >= (#[trigger] users[j]).balance
}

/// `user` put into `ranked` behind everyone who holds at least as much.
pub open spec fn placed(ranked: Seq<User>, user: User) -> Seq<User>
    decreases ranked.len(),
{
    if ranked.len() == 0 {
        seq![user]
    } else if ranked.last().balance >= user.balance {
        ranked.push(user)
    } else {
        placed(ranked.drop_last(), user).push(ranked.last())
    }
}

/// The users by balance, richest first, those with equal balances in the
/// order in which they are given.
pub open spec fn ranking(users: Seq<User>) -> Seq<User>
    decreases users.len(),
{
    if users.len() == 0 {
        Seq::empty()
    } else {
        placed(ranking(users.drop_last()), users.last())
    }
}

/// Every profit of the market's users can be represented.
pub open spec fn profits_in_range(market: Market, users: Seq<User>) -> bool {
    forall|i: int|
        0 <= i < users.len() ==> i64::MIN <= (#[trigger] users[i]).balance
            - market.starting_balance <= i64::MAX
}

/// Placing a user is inserting them where the poorer users begin.
proof fn lemma_placed_is_insert(ranked: Seq<User>, user: User, at: int)
    requires
        0 <= at <= ranked.len(),
        forall|k: int| at <= k < ranked.len() ==> (#[trigger] ranked[k]).balance < user.balance,
        at > 0 ==> ranked[at - 1].balance >= user.balance,
    ensures
        placed(ranked, user) == ranked.insert(at, user),
    decreases ranked.len() - at,
{
    if ranked.len() == 0 {
        assert(ranked.insert(at, user) =~= seq![user]);
    } else if at == ranked.len() {
        assert(ranked.insert(at, user) =~= ranked.push(user));
    } else {
        let rest = ranked.drop_last();
        assert(ranked.last() == ranked[ranked.len() - 1]);
        assert forall|k: int| at <= k < rest.len() implies (#[trigger] rest[k]).balance
            < user.balance by {
            assert(rest[k] == ranked[k]);
        }
        if at > 0 {
            assert(rest[at - 1] == ranked[at - 1]);
        }
        lemma_placed_is_insert(rest, user, at);
        assert(rest.insert(at, user).push(ranked.last()) =~= ranked.insert(at, user));
    }
}

/// Placing a user keeps the richest first and changes nothing but the
/// presence of that user.
pub proof fn lemma_placed(ranked: Seq<User>, user: User)
    requires
        richest_first(ranked),
    ensures
        richest_first(placed(ranked, user)),
        placed(ranked, user).to_multiset() == ranked.to_multiset().insert(user),
        placed(ranked, user).len() == ranked.len() + 1,
    decreases ranked.len(),
{
    broadcast use vstd::seq_lib::group_to_multiset_ensures;

    if ranked.len() == 0 {
        assert(placed(ranked, user) =~= Seq::<User>::empty().push(user));
        assert(ranked =~= Seq::<User>::empty());
    } else if ranked.last().balance >= user.balance {
        let out = ranked.push(user);
        assert forall|i: int, j: int| 0 <= i <= j < out.len() implies (#[trigger] out[i]).balance
            >= (#[trigger] out[j]).balance by {
            if j == ranked.len() {
                if i < ranked.len() {
                    assert(ranked[i].balance >= ranked[ranked.len() - 1].balance);
                }
            } else {
                assert(ranked[i].balance >= ranked[j].balance);
            }
        }
    } else {
        let rest = ranked.drop_last();
        let last = ranked.last();
        assert(richest_first(rest)) by {
            assert forall|i: int, j: int| 0 <= i <= j < rest.len() implies (#[trigger] rest[i]).balance
                >= (#[trigger] rest[j]).balance by {
                assert(ranked[i].balance >= ranked[j].balance);
            }
        }
        lemma_placed(rest, user);
        let inner = placed(rest, user);
        let out = inner.push(last);
        assert(ranked =~= rest.push(last));
        assert forall|x: User| inner.contains(x) implies x.balance >= last.balance by {
            assert(inner.to_multiset().count(x) > 0);
            if x != user {
                assert(rest.to_multiset().count(x) > 0);
                assert(rest.contains(x));
                let k = choose|k: int| 0 <= k < rest.len() && rest[k] == x;
                assert(ranked[k].balance >= ranked[ranked.len() - 1].balance);
            }
        }
        assert forall|i: int, j: int| 0 <= i <= j < out.len() implies (#[trigger] out[i]).balance
            >= (#[trigger] out[j]).balance by {
            if j == inner.len() {
                if i < inner.len() {
                    assert(inner.contains(inner[i]));
                }
            } else {
                assert(inner[i].balance >= inner[j].balance);
            }
        }
        assert(out.to_multiset() =~= ranked.to_multiset().insert(user));
    }
}

/// The ranking of some users holds the same users, richest first.
pub proof fn lemma_ranking(users: Seq<User>)
    ensures
        richest_first(ranking(users)),
        ranking(users).to_multiset() == users.to_multiset(),
        ranking(users).len() == users.len(),
    decreases users.len(),
{
    broadcast use vstd::seq_lib::group_to_multiset_ensures;

    if users.len() > 0 {
        lemma_ranking(users.drop_last());
        lemma_placed(ranking(users.drop_last()), users.last());
        assert(users =~= users.drop_last().push(users.last()));
    } else {
        assert(users =~= Seq::<User>::empty());
    }
}

/// Orders the users by balance, richest first; users with equal balances
/// stay in the order in which they came.
pub fn rank_users(users: Vec<User>) -> (ranked: Vec<User>)
    ensures
        ranked@ == ranking(users@),
        richest_first(ranked@),
        ranked@.to_multiset() == users@.to_multiset(),
        ranked.len() == users.len(),
{
    let mut ranked: Vec<User> = Vec::new();
    let mut i: usize = 0;
    while i < users.len()
        invariant
            i <= users.len(),
            ranked@ == ranking(users@.take(i as int)),
            ranked.len() == i,
        decreases users.len() - i,
    {
        let user: User = users[i].clone();
        let mut at: usize = ranked.len();
        while at > 0 && ranked[at - 1].balance < user.balance
            invariant
                at <= ranked.len(),
                forall|k: int| at <= k < ranked.len() ==> (#[trigger] ranked[k]).balance
                    < user.balance,
            decreases at,
        {
            at -= 1;
        }
        proof {
            lemma_placed_is_insert(ranked@, user, at as int);
            assert(users@.take(i + 1).drop_last() =~= users@.take(i as int));
            assert(users@.take(i + 1).last() == users@[i as int]);
        }
        ranked.insert(at, user);
        i += 1;
    }
    proof {
        assert(users@.take(i as int) =~= users@);
        lemma_ranking(users@);
    }
    ranked
}

/// Tests whether every profit of the market's users can be represented.
pub fn profits_representable(market: &Market, users: &Vec<User>) -> (b: bool)
    ensures
        b == profits_in_range(*market, users@),
{
    let mut i: usize = 0;
    while i < users.len()
        invariant
            i <= users.len(),
            forall|k: int|
                0 <= k < i ==> i64::MIN <= (#[trigger] users[k]).balance - market.starting_balance
                    <= i64::MAX,
        decreases users.len() - i,
    {
        if users[i].balance.checked_sub(market.starting_balance).is_none() {
            return false;
        }
        i += 1;
    }
    true
}

/// The leaderboard of `market` for its `users`: each user at the position
/// of their balance, with their profit and with their position as rank.
pub fn leaderboard(market: &Market, users: Vec<User>) -> (board: LeaderboardResponse)
    requires
        profits_in_range(*market, users@),
    ensures
        board.users.len() == users.len(),
        forall|i: int|
            0 <= i < board.users.len() ==> {
                &&& (#[trigger] board.users[i]).user == ranking(users@)[i]
                &&& board.users[i].rank == i + 1
                &&& board.users[i].profit == board.users[i].user.balance - market.starting_balance
            },
        forall|i: int, j: int|
            0 <= i <= j < board.users.len() ==> (#[trigger] board.users[i]).user.balance >= (
            #[trigger] board.users[j]).user.balance,
{
    let ghost given = users@;
    let ranked: Vec<User> = rank_users(users);
    proof {
        assert forall|i: int| 0 <= i < ranked.len() implies i64::MIN <= (#[trigger] ranked[i]).balance
            - market.starting_balance <= i64::MAX by {
            broadcast use vstd::seq_lib::group_to_multiset_ensures;

            assert(ranked@.contains(ranked[i]));
            assert(ranked@.to_multiset().count(ranked[i]) > 0);
            assert(given.to_multiset().count(ranked[i]) > 0);
            assert(given.contains(ranked[i]));
        }
    }
    let mut entries: Vec<UserWithStats> = Vec::new();
    let mut i: usize = 0;
    while i < ranked.len()
        invariant
            i <= ranked.len(),
            entries.len() == i,
            forall|k: int|
                0 <= k < ranked.len() ==> i64::MIN <= (#[trigger] ranked[k]).balance
                    - market.starting_balance <= i64::MAX,
            forall|k: int|
                0 <= k < i ==> {
                    &&& (#[trigger] entries[k]).user == ranked[k]
                    &&& entries[k].rank == k + 1
                    &&& entries[k].profit == ranked[k].balance - market.starting_balance
                },
        decreases ranked.len() - i,
    {
        let user: User = ranked[i].clone();
        let profit: i64 = user.balance - market.starting_balance;
        entries.push(UserWithStats { user, profit, rank: i + 1 });
        i += 1;
    }
    LeaderboardResponse { users: entries }
}

} // verus!
