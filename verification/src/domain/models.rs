//! Markets, users, bets, wagers, and the viewer-specific projection of a bet.

use vstd::prelude::*;

verus! {

/// Market status lifecycle: `Draft -> Open -> Closed -> Resolved`.
#[derive(Debug, Clone, Copy, PartialEq, Eq, Structural)]
pub enum MarketStatus {
    /// Collecting players and bet ideas.
    Draft,
    /// Active betting period.
    Open,
    /// Resolution period.
    Closed,
    /// Final results.
    Resolved,
}

/// Bet status lifecycle: `Pending -> Active -> {ResolvedYes | ResolvedNo}`,
/// with `Challenged` reserved for disputes.
#[derive(Debug, Clone, Copy, PartialEq, Eq, Structural)]
pub enum BetStatus {
    /// Awaiting admin approval.
    Pending,
    /// Open for betting.
    Active,
    /// Outcome: YES.
    ResolvedYes,
    /// Outcome: NO.
    ResolvedNo,
    /// Under dispute.
    Challenged,
}

/// Status of a challenge to a resolution.
#[derive(Debug, Clone, Copy, PartialEq, Eq, Structural)]
pub enum ChallengeStatus {
    /// Challenge is ongoing.
    Active,
    /// Resolver matched or raised.
    Accepted,
    /// Resolver withdrew.
    Withdrawn,
    /// Dispute settled.
    Resolved,
}

/// Betting side.
#[derive(Debug, Clone, Copy, PartialEq, Eq, Structural)]
pub enum Side {
    Yes,
    No,
}

/// The YES probability of a bet as an exact fraction.
#[derive(Debug, Clone, Copy, PartialEq, Eq, Structural)]
pub struct Probability {
    pub numerator: i64,
    pub denominator: i64,
}

impl Probability {
    /// The fraction has a positive denominator and lies between 0 and 1.
    pub open spec fn wf(&self) -> bool {
        0 <= self.numerator <= self.denominator && 0 < self.denominator
    }

    /// The fraction equals `n / d`.
    pub open spec fn equals_ratio(&self, n: int, d: int) -> bool {
        self.numerator * d == n * self.denominator
    }
}

/// A prediction market: a time-boxed betting session among a group.
#[derive(Debug)]
pub struct Market {
    pub id: u128,
    pub name: String,
    pub status: MarketStatus,
    /// User id of the admin.
    pub created_by: u128,
    pub opens_at: i64,
    pub closes_at: i64,
    /// Coins granted to each joining participant.
    pub starting_balance: i64,
    /// Short code for joining.
    pub invite_code: String,
    pub created_at: i64,
}

impl Clone for Market {
    fn clone(&self) -> (r: Self)
        ensures
            r == *self,
    {
        Market {
            id: self.id,
            name: self.name.clone(),
            status: self.status,
            created_by: self.created_by,
            opens_at: self.opens_at,
            closes_at: self.closes_at,
            starting_balance: self.starting_balance,
            invite_code: self.invite_code.clone(),
            created_at: self.created_at,
        }
    }
}

/// A participant of one market, recognised by a device identifier.
#[derive(Debug)]
pub struct User {
    pub id: u128,
    pub market_id: u128,
    pub device_id: String,
    pub display_name: String,
    pub avatar: String,
    /// Current coin balance.
    pub balance: i64,
    pub is_admin: bool,
    pub joined_at: i64,
}

impl Clone for User {
    fn clone(&self) -> (r: Self)
        ensures
            r == *self,
    {
        User {
            id: self.id,
            market_id: self.market_id,
            device_id: self.device_id.clone(),
            display_name: self.display_name.clone(),
            avatar: self.avatar.clone(),
            balance: self.balance,
            is_admin: self.is_admin,
            joined_at: self.joined_at,
        }
    }
}

/// A binary proposition about one participant.
#[derive(Debug)]
pub struct Bet {
    pub id: u128,
    pub market_id: u128,
    /// Who the bet is about.
    pub subject_user_id: u128,
    pub created_by: u128,
    pub description: String,
    /// Opening-odds label such as "3:1"; for display only.
    pub initial_odds: String,
    pub status: BetStatus,
    /// Total coins wagered on YES.
    pub yes_pool: i64,
    /// Total coins wagered on NO.
    pub no_pool: i64,
    /// If set, the subject cannot see this bet until it is resolved.
    pub hide_from_subject: bool,
    pub created_at: i64,
    pub resolved_at: Option<i64>,
}

impl Clone for Bet {
    fn clone(&self) -> (r: Self)
        ensures
            r == *self,
    {
        Bet {
            id: self.id,
            market_id: self.market_id,
            subject_user_id: self.subject_user_id,
            created_by: self.created_by,
            description: self.description.clone(),
            initial_odds: self.initial_odds.clone(),
            status: self.status,
            yes_pool: self.yes_pool,
            no_pool: self.no_pool,
            hide_from_subject: self.hide_from_subject,
            created_at: self.created_at,
            resolved_at: self.resolved_at,
        }
    }
}

impl Bet {
    /// Both pools are non-negative and their sum is representable.
    pub open spec fn pools_valid(&self) -> bool {
        0 <= self.yes_pool && 0 <= self.no_pool && self.yes_pool + self.no_pool <= i64::MAX
    }

    /// The pool on the given side.
    pub open spec fn pool(&self, side: Side) -> int {
        match side {
            Side::Yes => self.yes_pool as int,
            Side::No => self.no_pool as int,
        }
    }

    /// Both pools together.
    pub open spec fn total_pool(&self) -> int {
        self.yes_pool + self.no_pool
    }
}

/// A bet as one viewer may see it: either the full bet, or a redacted version
/// without subject and description.
#[derive(Debug)]
pub struct BetView {
    pub id: u128,
    pub market_id: u128,
    /// Set if this bet is about the viewer and still concealed from them.
    pub is_hidden: bool,
    /// Absent if hidden.
    pub subject_user_id: Option<u128>,
    /// Absent if hidden.
    pub description: Option<String>,
    pub created_by: u128,
    pub initial_odds: String,
    pub status: BetStatus,
    pub yes_pool: i64,
    pub no_pool: i64,
    pub created_at: i64,
    pub resolved_at: Option<i64>,
}

impl Bet {
    /// The bet is concealed from `viewer`: its creator marked it so, the
    /// viewer is its subject, and it is still pending or active.
    pub open spec fn hidden_from(&self, viewer: u128) -> bool {
        &&& self.hide_from_subject
        &&& self.subject_user_id == viewer
        &&& self.status != BetStatus::ResolvedYes
        &&& self.status != BetStatus::ResolvedNo
        &&& self.status != BetStatus::Challenged
    }

    /// The projection of the bet with subject and description shown or
    /// withheld; everything else is always shown.
    pub open spec fn projection(&self, hidden: bool) -> BetView {
        BetView {
            id: self.id,
            market_id: self.market_id,
            is_hidden: hidden,
            subject_user_id: if hidden {
                None
            } else {
                Some(self.subject_user_id)
            },
            description: if hidden {
                None
            } else {
                Some(self.description)
            },
            created_by: self.created_by,
            initial_odds: self.initial_odds,
            status: self.status,
            yes_pool: self.yes_pool,
            no_pool: self.no_pool,
            created_at: self.created_at,
            resolved_at: self.resolved_at,
        }
    }

    /// What `viewer` sees of the bet.
    pub open spec fn view_for(&self, viewer: u128) -> BetView {
        self.projection(self.hidden_from(viewer))
    }

    fn project(&self, hidden: bool) -> (v: BetView)
        ensures
            v == self.projection(hidden),
    {
        BetView {
            id: self.id,
            market_id: self.market_id,
            is_hidden: hidden,
            subject_user_id: if hidden {
                None
            } else {
                Some(self.subject_user_id)
            },
            description: if hidden {
                None
            } else {
                Some(self.description.clone())
            },
            created_by: self.created_by,
            initial_odds: self.initial_odds.clone(),
            status: self.status,
            yes_pool: self.yes_pool,
            no_pool: self.no_pool,
            created_at: self.created_at,
            resolved_at: self.resolved_at,
        }
    }

    /// Convert to a view model for a specific viewing user.
    pub fn to_view(&self, viewing_user_id: u128) -> (v: BetView)
        ensures
            v == self.view_for(viewing_user_id),
    {
        let is_hidden: bool = self.hide_from_subject && self.subject_user_id == viewing_user_id
            && self.status != BetStatus::ResolvedYes && self.status != BetStatus::ResolvedNo
            && self.status != BetStatus::Challenged;
        self.project(is_hidden)
    }

    /// Convert to a view model that withholds nothing, as for a viewer who
    /// is the subject of no bet.
    pub fn to_revealed_view(&self) -> (v: BetView)
        ensures
            v == self.projection(false),
    {
        self.project(false)
    }

    /// A bet marked to be hidden is concealed from its subject while it is
    /// pending or active; once it is resolved or challenged its subject
    /// sees all of it; and whoever is not its subject always sees all of it.
    pub proof fn lemma_visibility(&self, viewer: u128)
        ensures
            self.hide_from_subject && viewer == self.subject_user_id && (self.status
                == BetStatus::Pending || self.status == BetStatus::Active) ==> {
                &&& self.view_for(viewer).is_hidden
                &&& self.view_for(viewer).subject_user_id is None
                &&& self.view_for(viewer).description is None
            },
            self.status == BetStatus::ResolvedYes || self.status == BetStatus::ResolvedNo
                || self.status == BetStatus::Challenged || viewer != self.subject_user_id
                || !self.hide_from_subject ==> {
                &&& !self.view_for(viewer).is_hidden
                &&& self.view_for(viewer).subject_user_id == Some(self.subject_user_id)
                &&& self.view_for(viewer).description == Some(self.description)
                &&& self.view_for(viewer) == self.projection(false)
            },
            self.view_for(viewer).yes_pool == self.yes_pool,
            self.view_for(viewer).no_pool == self.no_pool,
            self.view_for(viewer).status == self.status,
            self.view_for(viewer).initial_odds == self.initial_odds,
            self.view_for(viewer).created_by == self.created_by,
            self.view_for(viewer).created_at == self.created_at,
            self.view_for(viewer).resolved_at == self.resolved_at,
    {
    }
}

/// One participant's stake on one side of one bet, with a snapshot of the
/// pools right after it was applied.
#[derive(Debug, Clone, Copy, PartialEq, Eq, Structural)]
pub struct Wager {
    pub id: u128,
    pub bet_id: u128,
    pub user_id: u128,
    pub side: Side,
    pub amount: i64,
    pub placed_at: i64,
    pub yes_pool_after: i64,
    pub no_pool_after: i64,
    /// YES probability after this wager.
    pub probability_after: Probability,
}

/// A challenge to a bet resolution.
#[derive(Debug, Clone, Copy, PartialEq, Eq, Structural)]
pub struct Challenge {
    pub id: u128,
    pub bet_id: u128,
    /// Who initiated the challenge.
    pub challenger_id: u128,
    /// Who resolved the bet that is being challenged.
    pub resolver_id: u128,
    pub challenger_stake: i64,
    pub resolver_stake: i64,
    pub status: ChallengeStatus,
    pub created_at: i64,
    pub resolved_at: Option<i64>,
    /// Set when resolved.
    pub winner_id: Option<u128>,
}

/// One point of the probability-over-time chart of a bet.
#[derive(Debug, Clone, Copy, PartialEq, Eq, Structural)]
pub struct ProbabilityPoint {
    pub timestamp: i64,
    pub yes_probability: Probability,
}

} // verus!
