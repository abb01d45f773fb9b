//! Requests, responses and notifications.
//!
//! A front end turns what it receives into a request, calls the service, and
//! builds its answer, and what it tells the other participants, from what
//! the service returned.

use vstd::prelude::*;
use vstd::string::*;
use crate::db::error::DbError;
use crate::domain::models::{
    Bet, BetStatus, BetView, Market, MarketStatus, Probability, ProbabilityPoint, Side, User, Wager,
};
use crate::service::plans::CreateMarketParams;

verus! {

// ===== Requests =====
/// A request to create a market.
#[derive(Debug)]
pub struct CreateMarketRequest {
    pub name: String,
    pub admin_name: String,
    pub duration_hours: i64,
    pub starting_balance: i64,
    pub device_id: Option<String>,
    pub invite_code: Option<String>,
}

/// The starting balance of a market whose request does not name one.
pub fn default_starting_balance() -> (coins: i64)
    ensures
        coins == 1000,
{
    1000
}

/// The avatar of the admin of a market.
pub open spec fn admin_avatar() -> Seq<char> {
    "\u{1F451}"@
}

impl CreateMarketRequest {
    /// The parameters of the market that the request asks for. The admin
    /// joins from the device that the request names, or else from
    /// `fallback_device_id`, and wears the crown.
    pub fn into_params(self, fallback_device_id: String) -> (params: CreateMarketParams)
        ensures
            params.name == self.name,
            params.admin_name == self.admin_name,
            params.admin_device_id == (match self.device_id {
                Some(device_id) => device_id,
                None => fallback_device_id,
            }),
            params.admin_avatar@ == admin_avatar(),
            params.starting_balance == self.starting_balance,
            params.duration_hours == self.duration_hours,
            params.custom_invite_code == self.invite_code,
    {
        let admin_device_id: String = match self.device_id {
            Some(device_id) => device_id,
            None => fallback_device_id,
        };
        CreateMarketParams {
            name: self.name,
            admin_device_id,
            admin_name: self.admin_name,
            admin_avatar: "\u{1F451}".to_string(),
            starting_balance: self.starting_balance,
            duration_hours: self.duration_hours,
            custom_invite_code: self.invite_code,
        }
    }
}

/// A request to join a market.
#[derive(Debug)]
pub struct JoinMarketRequest {
    pub display_name: String,
    pub avatar: String,
    pub device_id: Option<String>,
}

/// A request to create a bet.
#[derive(Debug)]
pub struct CreateBetRequest {
    pub subject_user_id: u128,
    pub description: String,
    pub initial_odds: String,
    pub opening_wager: i64,
    pub hide_from_subject: bool,
}

/// A request to place a wager.
#[derive(Debug, Clone, Copy, PartialEq, Eq, Structural)]
pub struct PlaceWagerRequest {
    pub side: Side,
    pub amount: i64,
}

/// A request to resolve a bet.
#[derive(Debug, Clone, Copy, PartialEq, Eq, Structural)]
pub struct ResolveBetRequest {
    pub outcome: Side,
}

// ===== Responses =====
/// The answer to the creation of a market.
#[derive(Debug)]
pub struct CreateMarketResponse {
    pub market: Market,
    pub user: User,
    pub invite_code: String,
}

impl CreateMarketResponse {
    /// The answer for a market and its admin, with the market's invite code
    /// set apart for display.
    pub fn new(market: Market, user: User) -> (response: Self)
        ensures
            response.market == market,
            response.user == user,
            response.invite_code == market.invite_code,
    {
        let invite_code: String = market.invite_code.clone();
        CreateMarketResponse { market, user, invite_code }
    }
}

/// The answer to joining a market.
#[derive(Debug)]
pub struct JoinMarketResponse {
    pub market: Market,
    pub user: User,
}

/// The answer that shows one bet.
#[derive(Debug)]
pub struct BetResponse {
    pub bet: BetView,
}

impl BetResponse {
    /// The answer to the creation of `bet`, as its creator may see it.
    pub fn for_creator(bet: &Bet, creator_id: u128) -> (response: Self)
        ensures
            response.bet == bet.view_for(creator_id),
    {
        BetResponse { bet: bet.to_view(creator_id) }
    }
}

/// The answer to placing a wager.
#[derive(Debug, Clone, Copy, PartialEq, Eq, Structural)]
pub struct WagerResponse {
    pub bet_id: u128,
    pub user_id: u128,
    pub side: Side,
    pub amount: i64,
    pub new_probability: Probability,
}

impl WagerResponse {
    /// The answer for a wager that was placed.
    pub fn for_wager(wager: &Wager) -> (response: Self)
        ensures
            response == (WagerResponse {
                bet_id: wager.bet_id,
                user_id: wager.user_id,
                side: wager.side,
                amount: wager.amount,
                new_probability: wager.probability_after,
            }),
    {
        WagerResponse {
            bet_id: wager.bet_id,
            user_id: wager.user_id,
            side: wager.side,
            amount: wager.amount,
            new_probability: wager.probability_after,
        }
    }
}

/// The probability chart of a bet.
#[derive(Debug)]
pub struct ProbabilityChartResponse {
    pub points: Vec<ProbabilityPoint>,
}

/// The bets about one user, with nothing withheld.
#[derive(Debug)]
pub struct RevealResponse {
    pub bets: Vec<BetView>,
}

/// Renders bets with nothing withheld, as for a viewer who is the subject
/// of none of them.
pub fn revealed_views(bets: &Vec<Bet>) -> (views: Vec<BetView>)
    ensures
        views@ == bets@.map_values(|b: Bet| b.projection(false)),
        forall|i: int|
            0 <= i < views.len() ==> {
                &&& !(#[trigger] views[i]).is_hidden
                &&& views[i].subject_user_id == Some(bets[i].subject_user_id)
                &&& views[i].description == Some(bets[i].description)
            },
{
    let mut views: Vec<BetView> = Vec::new();
    let mut i: usize = 0;
    while i < bets.len()
        invariant
            i <= bets.len(),
            views.len() == i,
            forall|j: int| 0 <= j < i ==> (#[trigger] views[j]) == bets[j].projection(false),
        decreases bets.len() - i,
    {
        views.push(bets[i].to_revealed_view());
        i += 1;
    }
    assert(views@ =~= bets@.map_values(|b: Bet| b.projection(false)));
    views
}

impl RevealResponse {
    /// The reveal of the given bets.
    pub fn new(bets: &Vec<Bet>) -> (response: Self)
        ensures
            response.bets@ == bets@.map_values(|b: Bet| b.projection(false)),
    {
        RevealResponse { bets: revealed_views(bets) }
    }
}

/// The answer to a request that failed.
#[derive(Debug)]
pub struct ErrorResponse {
    pub error: String,
}

impl ErrorResponse {
    /// The answer for a failure, with the failure's message.
    pub fn for_error(error: &DbError) -> (response: Self)
        ensures
            response.error@ == error.text(),
    {
        ErrorResponse { error: error.message() }
    }
}

/// A market that a device has joined, with the device's user in it.
#[derive(Debug)]
pub struct DeviceMarketInfo {
    pub market: Market,
    pub user: User,
}

/// The markets that a device has joined.
#[derive(Debug)]
pub struct DeviceMarketsResponse {
    pub markets: Vec<DeviceMarketInfo>,
}

impl DeviceMarketsResponse {
    /// The entries as pairs of a market and the device's user in it.
    pub open spec fn pairs(&self) -> Seq<(Market, User)> {
        Seq::new(self.markets.len() as nat, |i: int| (self.markets[i].market, self.markets[i].user))
    }

    /// The answer for the pairs that the service listed, in its order.
    pub fn new(pairs: Vec<(Market, User)>) -> (response: Self)
        ensures
            response.pairs() == pairs@,
            response.markets.len() == pairs.len(),
            forall|i: int|
                0 <= i < pairs.len() ==> (#[trigger] response.markets[i]).market == pairs[i].0
                    && response.markets[i].user == pairs[i].1,
    {
        let mut markets: Vec<DeviceMarketInfo> = Vec::new();
        let mut i: usize = 0;
        while i < pairs.len()
            invariant
                i <= pairs.len(),
                markets.len() == i,
                forall|j: int|
                    0 <= j < i ==> (#[trigger] markets[j]).market == pairs[j].0 && markets[j].user
                        == pairs[j].1,
            decreases pairs.len() - i,
        {
            markets.push(
                DeviceMarketInfo { market: pairs[i].0.clone(), user: pairs[i].1.clone() },
            );
            i += 1;
        }
        let response = DeviceMarketsResponse { markets };
        assert(response.pairs() =~= pairs@);
        response
    }
}

// ===== Notifications =====
/// What a front end and its clients tell each other over a live
/// connection.
#[derive(Debug)]
#[allow(inconsistent_fields)]
pub enum WsMessage {
    // Client -> Server
    Subscribe { market_id: u128 },
    Ping,
    // Server -> Client
    MarketUpdate { market: Market },
    BetCreated { bet_id: u128, description: String },
    BetApproved { bet_id: u128 },
    UserJoined { user_id: u128, display_name: String, market_id: u128 },
    WagerPlaced {
        bet_id: u128,
        user_id: u128,
        side: Side,
        amount: i64,
        new_yes_pool: i64,
        new_no_pool: i64,
        new_probability: Probability,
    },
    BetResolved { bet_id: u128, outcome: Side, status: BetStatus },
    MarketStatusChanged { market_id: u128, status: MarketStatus },
    MarketDeleted { market_id: u128 },
    Pong,
    Error { message: String },
}

impl WsMessage {
    /// What to tell the participants of a wager that was placed: who
    /// wagered how much on which side of which bet, and the pools and the
    /// probability right after it, so that everyone can show the current
    /// odds without asking again.
    pub fn wager_placed(wager: &Wager) -> (message: Self)
        ensures
            message == (WsMessage::WagerPlaced {
                bet_id: wager.bet_id,
                user_id: wager.user_id,
                side: wager.side,
                amount: wager.amount,
                new_yes_pool: wager.yes_pool_after,
                new_no_pool: wager.no_pool_after,
                new_probability: wager.probability_after,
            }),
    {
        WsMessage::WagerPlaced {
            bet_id: wager.bet_id,
            user_id: wager.user_id,
            side: wager.side,
            amount: wager.amount,
            new_yes_pool: wager.yes_pool_after,
            new_no_pool: wager.no_pool_after,
            new_probability: wager.probability_after,
        }
    }

    /// What to tell the participants of a user who joined.
    pub fn user_joined(market: &Market, user: &User) -> (message: Self)
        ensures
            message == (WsMessage::UserJoined {
                user_id: user.id,
                display_name: user.display_name,
                market_id: market.id,
            }),
    {
        WsMessage::UserJoined {
            user_id: user.id,
            display_name: user.display_name.clone(),
            market_id: market.id,
        }
    }

    /// What to tell the participants of a bet that was created.
    pub fn bet_created(bet: &Bet) -> (message: Self)
        ensures
            message == (WsMessage::BetCreated { bet_id: bet.id, description: bet.description }),
    {
        WsMessage::BetCreated { bet_id: bet.id, description: bet.description.clone() }
    }

    /// What to tell the participants of a bet that was resolved.
    pub fn bet_resolved(bet: &Bet, outcome: Side) -> (message: Self)
        ensures
            message == (WsMessage::BetResolved { bet_id: bet.id, outcome, status: bet.status }),
    {
        WsMessage::BetResolved { bet_id: bet.id, outcome, status: bet.status }
    }

    /// What to tell the participants of a market whose status changed.
    pub fn market_status_changed(market: &Market) -> (message: Self)
        ensures
            message == (WsMessage::MarketStatusChanged {
                market_id: market.id,
                status: market.status,
            }),
    {
        WsMessage::MarketStatusChanged { market_id: market.id, status: market.status }
    }
}

} // verus!
