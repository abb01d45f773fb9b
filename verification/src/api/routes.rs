//! What a front end does with a request: it calls the service, and from
//! what the service returns it builds its answer and what it tells the
//! other participants.
//!
//! A front end that receives requests over a network reads them into the
//! request types, calls one of these functions on the service that it
//! shares, sends the answer, and broadcasts the message.

use vstd::prelude::*;
use crate::api::models::{
    admin_avatar, revealed_views, BetResponse, CreateBetRequest, CreateMarketRequest,
    CreateMarketResponse, DeviceMarketsResponse, JoinMarketRequest, JoinMarketResponse,
    PlaceWagerRequest, ProbabilityChartResponse, ResolveBetRequest, RevealResponse,
    WagerResponse, WsMessage,
};
use crate::db::error::{DbError, DbResult};
use crate::db::interface::{Database, DEVICE_MARKETS_LIMIT};
use crate::db::ledger::{bet_with_status, lemma_first_where_map, resolution_time, Ledger};
use crate::domain::models::{Bet, BetView, Market, MarketStatus, Side, User, Wager};
use crate::host::fresh_id;
use crate::service::bets::{
    approval_outcome, bet_creation_outcome, credited, resolution_outcome, wager_outcome,
};
use crate::service::engine::CazinoService;
use crate::service::guarantees::lemma_markets_move_forward;
use crate::service::invite::invite_code_valid;
use crate::service::markets::{join_outcome, market_creation_outcome, transition_outcome};
use crate::service::plans::{chart_point, resolved_status, CreateMarketParams};
use crate::text::uuid_text;

verus! {

/// The parameters are those that the request asks for: its names and
/// numbers, its device if it names one, and the crown for the admin.
pub open spec fn asked_for(req: CreateMarketRequest, params: CreateMarketParams) -> bool {
    &&& params.name == req.name
    &&& params.admin_name == req.admin_name
    &&& req.device_id matches Some(device_id) ==> params.admin_device_id == device_id
    &&& params.admin_avatar@ == admin_avatar()
    &&& params.starting_balance == req.starting_balance
    &&& params.duration_hours == req.duration_hours
    &&& params.custom_invite_code == req.invite_code
}

/// The market and the user of an answer to the creation of a market.
pub open spec fn created(r: DbResult<(CreateMarketResponse, WsMessage)>) -> DbResult<
    (Market, User),
> {
    match r {
        Ok(pair) => Ok((pair.0.market, pair.0.user)),
        Err(e) => Err(e),
    }
}

/// The market and the user of an answer to joining a market.
pub open spec fn joined(r: DbResult<(JoinMarketResponse, WsMessage)>) -> DbResult<(Market, User)> {
    match r {
        Ok(pair) => Ok((pair.0.market, pair.0.user)),
        Err(e) => Err(e),
    }
}

/// Create a new market.
///
/// A request that names no device gets a new one, a random identifier as
/// the text of a UUID. The answer shows the market, its admin and the
/// invite code; the others are shown the market.
pub fn create_market<D: Database>(service: &mut CazinoService<D>, req: CreateMarketRequest) -> (r:
    DbResult<(CreateMarketResponse, WsMessage)>)
    ensures
        final(service).reliable() == old(service).reliable(),
        r matches Ok(pair) ==> pair.0.invite_code == pair.0.market.invite_code && pair.1 == (
        WsMessage::MarketUpdate { market: pair.0.market }),
        exists|
            params: CreateMarketParams,
            market_id: u128,
            admin_id: u128,
            invite_code: String,
            now: i64,
        |
            {
                &&& asked_for(req, params)
                &&& invite_code_valid(invite_code@)
                &&& req.invite_code matches Some(custom) ==> (invite_code_valid(custom@)
                    ==> invite_code == custom)
                &&& #[trigger] market_creation_outcome(
                    old(service).ledger(),
                    old(service).reliable(),
                    params,
                    market_id,
                    admin_id,
                    invite_code,
                    now,
                    created(r),
                    final(service).ledger(),
                )
            },
{
    let fallback: String = match &req.device_id {
        Some(_) => String::new(),
        None => uuid_text(fresh_id()),
    };
    let ghost asked = req;
    let params: CreateMarketParams = req.into_params(fallback);
    let ghost given = params;
    let created_pair = service.create_market(params);
    let r = match created_pair {
        Ok((market, user)) => {
            let message = WsMessage::MarketUpdate { market: market.clone() };
            Ok((CreateMarketResponse::new(market, user), message))
        },
        Err(e) => Err(e),
    };
    proof {
        let (market_id, admin_id, invite_code, now) = choose|
            market_id: u128,
            admin_id: u128,
            invite_code: String,
            now: i64,
        |
            {
                &&& invite_code_valid(invite_code@)
                &&& given.custom_invite_code matches Some(custom) ==> (invite_code_valid(custom@)
                    ==> invite_code == custom)
                &&& #[trigger] market_creation_outcome(
                    old(service).ledger(),
                    old(service).reliable(),
                    given,
                    market_id,
                    admin_id,
                    invite_code,
                    now,
                    created_pair,
                    service.ledger(),
                )
            };
        assert(created(r) == created_pair);
        assert(asked_for(asked, given));
        assert(market_creation_outcome(
            old(service).ledger(),
            old(service).reliable(),
            given,
            market_id,
            admin_id,
            invite_code,
            now,
            created(r),
            service.ledger(),
        ));
    }
    r
}

/// Join an existing market.
///
/// A request that names no device gets a new one. The answer shows the
/// market and the user; the others are told who joined.
pub fn join_market<D: Database>(
    service: &mut CazinoService<D>,
    invite_code: String,
    req: JoinMarketRequest,
) -> (r: DbResult<(JoinMarketResponse, WsMessage)>)
    ensures
        final(service).reliable() == old(service).reliable(),
        r matches Ok(pair) ==> pair.1 == (WsMessage::UserJoined {
            user_id: pair.0.user.id,
            display_name: pair.0.user.display_name,
            market_id: pair.0.market.id,
        }),
        exists|device_id: String, user_id: u128, now: i64|
            {
                &&& req.device_id matches Some(named) ==> device_id == named
                &&& #[trigger] join_outcome(
                    old(service).ledger(),
                    old(service).reliable(),
                    invite_code,
                    device_id,
                    req.display_name,
                    req.avatar,
                    user_id,
                    now,
                    joined(r),
                    final(service).ledger(),
                )
            },
{
    let ghost asked = req;
    let device_id: String = match req.device_id {
        Some(named) => named,
        None => uuid_text(fresh_id()),
    };
    let ghost device = device_id;
    let joined_pair = service.join_market(invite_code, device_id, req.display_name, req.avatar);
    let r = match joined_pair {
        Ok((market, user)) => {
            let message = WsMessage::user_joined(&market, &user);
            Ok((JoinMarketResponse { market, user }, message))
        },
        Err(e) => Err(e),
    };
    proof {
        let (user_id, now) = choose|user_id: u128, now: i64| #[trigger]
            join_outcome(
                old(service).ledger(),
                old(service).reliable(),
                invite_code,
                device,
                asked.display_name,
                asked.avatar,
                user_id,
                now,
                joined_pair,
                service.ledger(),
            );
        assert(joined(r) == joined_pair);
        assert(join_outcome(
            old(service).ledger(),
            old(service).reliable(),
            invite_code,
            device,
            asked.display_name,
            asked.avatar,
            user_id,
            now,
            joined(r),
            service.ledger(),
        ));
    }
    r
}

/// What a change of a market's status tells the others: the status that
/// the market has now.
pub open spec fn status_message(market_id: u128, status: MarketStatus) -> WsMessage {
    WsMessage::MarketStatusChanged { market_id, status }
}

fn announce_status<D: Database>(service: &CazinoService<D>, market_id: u128) -> (r: DbResult<
    WsMessage,
>)
    ensures
        r matches Ok(message) ==> (service.ledger().find_market(market_id) matches Some(market)
            && message == (WsMessage::MarketStatusChanged {
            market_id: market.id,
            status: market.status,
        })),
        r matches Err(e) ==> (service.reliable() ==> service.ledger().find_market(market_id)
            is None && e is NotFound),
{
    match service.get_market(market_id) {
        Ok(market) => Ok(WsMessage::market_status_changed(&market)),
        Err(e) => Err(e),
    }
}

/// Open a market for betting (admin only). The others are told the status
/// of the market.
///
/// The message is read from the store after the change. If the store
/// fails then, the change has been made all the same.
pub fn open_market<D: Database>(service: &mut CazinoService<D>, market_id: u128, admin_id: u128) -> (r:
    DbResult<WsMessage>)
    ensures
        final(service).reliable() == old(service).reliable(),
        r matches Ok(message) ==> {
            &&& transition_outcome(
                old(service).ledger(),
                old(service).reliable(),
                market_id,
                admin_id,
                MarketStatus::Open,
                Ok(()),
                final(service).ledger(),
            )
            &&& final(service).ledger().find_market(market_id) matches Some(market)
            &&& message == (WsMessage::MarketStatusChanged {
                market_id: market.id,
                status: market.status,
            })
        },
        r is Err && old(service).reliable() ==> transition_outcome(
            old(service).ledger(),
            old(service).reliable(),
            market_id,
            admin_id,
            MarketStatus::Open,
            Err(r->Err_0),
            final(service).ledger(),
        ),
{
    match service.open_market(market_id, admin_id) {
        Ok(()) => {},
        Err(e) => {
            return Err(e);
        },
    }
    proof {
        lemma_markets_move_forward(
            old(service).ledger(),
            old(service).reliable(),
            market_id,
            admin_id,
            MarketStatus::Open,
            Ok(()),
            service.ledger(),
        );
    }
    announce_status(service, market_id)
}

/// Close a market (admin only). The others are told the status of the
/// market.
///
/// The message is read from the store after the change. If the store
/// fails then, the change has been made all the same.
pub fn close_market<D: Database>(service: &mut CazinoService<D>, market_id: u128, admin_id: u128) -> (r:
    DbResult<WsMessage>)
    ensures
        final(service).reliable() == old(service).reliable(),
        r matches Ok(message) ==> {
            &&& transition_outcome(
                old(service).ledger(),
                old(service).reliable(),
                market_id,
                admin_id,
                MarketStatus::Closed,
                Ok(()),
                final(service).ledger(),
            )
            &&& final(service).ledger().find_market(market_id) matches Some(market)
            &&& message == (WsMessage::MarketStatusChanged {
                market_id: market.id,
                status: market.status,
            })
        },
        r is Err && old(service).reliable() ==> transition_outcome(
            old(service).ledger(),
            old(service).reliable(),
            market_id,
            admin_id,
            MarketStatus::Closed,
            Err(r->Err_0),
            final(service).ledger(),
        ),
{
    match service.close_market(market_id, admin_id) {
        Ok(()) => {},
        Err(e) => {
            return Err(e);
        },
    }
    proof {
        lemma_markets_move_forward(
            old(service).ledger(),
            old(service).reliable(),
            market_id,
            admin_id,
            MarketStatus::Closed,
            Ok(()),
            service.ledger(),
        );
    }
    announce_status(service, market_id)
}

/// The bet of an answer to the creation of a bet.
pub open spec fn opened(r: DbResult<(BetResponse, WsMessage)>, bet: Bet) -> DbResult<Bet> {
    match r {
        Ok(_) => Ok(bet),
        Err(e) => Err(e),
    }
}

/// Create a new bet.
///
/// The answer shows the bet as its creator may see it; the others are told
/// the identifier and the description of the bet.
pub fn create_bet<D: Database>(
    service: &mut CazinoService<D>,
    market_id: u128,
    creator_id: u128,
    req: CreateBetRequest,
) -> (r: DbResult<(BetResponse, WsMessage)>)
    ensures
        final(service).reliable() == old(service).reliable(),
        exists|bet: Bet, bet_id: u128, wager_id: u128, now: i64|
            {
                &&& r matches Ok(pair) ==> pair.0.bet == bet.view_for(creator_id) && pair.1 == (
                WsMessage::BetCreated { bet_id: bet.id, description: bet.description })
                &&& #[trigger] bet_creation_outcome(
                    old(service).ledger(),
                    old(service).reliable(),
                    market_id,
                    creator_id,
                    req.subject_user_id,
                    req.description,
                    req.initial_odds,
                    req.opening_wager,
                    req.hide_from_subject,
                    bet_id,
                    wager_id,
                    now,
                    opened(r, bet),
                    final(service).ledger(),
                )
            },
{
    let ghost asked = req;
    let made = service.create_bet(
        market_id,
        creator_id,
        req.subject_user_id,
        req.description,
        req.initial_odds,
        req.opening_wager,
        req.hide_from_subject,
    );
    let ghost witness: Bet = made->Ok_0;
    let r = match made {
        Ok(bet) => {
            let message = WsMessage::bet_created(&bet);
            Ok((BetResponse::for_creator(&bet, creator_id), message))
        },
        Err(e) => Err(e),
    };
    proof {
        let (bet_id, wager_id, now) = choose|bet_id: u128, wager_id: u128, now: i64| #[trigger]
            bet_creation_outcome(
                old(service).ledger(),
                old(service).reliable(),
                market_id,
                creator_id,
                asked.subject_user_id,
                asked.description,
                asked.initial_odds,
                asked.opening_wager,
                asked.hide_from_subject,
                bet_id,
                wager_id,
                now,
                made,
                service.ledger(),
            );
        assert(opened(r, witness) == made);
        assert(bet_creation_outcome(
            old(service).ledger(),
            old(service).reliable(),
            market_id,
            creator_id,
            asked.subject_user_id,
            asked.description,
            asked.initial_odds,
            asked.opening_wager,
            asked.hide_from_subject,
            bet_id,
            wager_id,
            now,
            opened(r, witness),
            service.ledger(),
        ));
    }
    r
}

/// Get the bets that await approval, with nothing withheld: who approves
/// sees all of every bet.
pub fn get_pending_bets<D: Database>(service: &CazinoService<D>, market_id: u128) -> (r: DbResult<
    Vec<BetView>,
>)
    ensures
        r matches Ok(views) ==> views@ == service.ledger().pending_bets_in(market_id).map_values(
            |b: Bet| b.projection(false),
        ),
        service.reliable() ==> r is Ok,
{
    match service.get_pending_bets(market_id) {
        Ok(bets) => Ok(revealed_views(&bets)),
        Err(e) => Err(e),
    }
}

/// The bet of an approval that succeeded.
pub open spec fn approved(r: DbResult<WsMessage>, bet: Bet) -> DbResult<Bet> {
    match r {
        Ok(_) => Ok(bet),
        Err(e) => Err(e),
    }
}

/// Approve a bet (admin only). The others are told which bet was approved.
pub fn approve_bet<D: Database>(service: &mut CazinoService<D>, bet_id: u128, admin_id: u128) -> (r:
    DbResult<WsMessage>)
    ensures
        final(service).reliable() == old(service).reliable(),
        r matches Ok(message) ==> message == (WsMessage::BetApproved { bet_id }),
        exists|bet: Bet| #[trigger]
            approval_outcome(
                old(service).ledger(),
                old(service).reliable(),
                bet_id,
                admin_id,
                approved(r, bet),
                final(service).ledger(),
            ),
{
    let done = service.approve_bet(bet_id, admin_id);
    let ghost witness: Bet = done->Ok_0;
    let r = match done {
        Ok(_) => Ok(WsMessage::BetApproved { bet_id }),
        Err(e) => Err(e),
    };
    proof {
        assert(approved(r, witness) == done);
        assert(approval_outcome(
            old(service).ledger(),
            old(service).reliable(),
            bet_id,
            admin_id,
            approved(r, witness),
            service.ledger(),
        ));
    }
    r
}

/// The wager of an answer to placing a wager.
pub open spec fn placed(r: DbResult<(WagerResponse, WsMessage)>, wager: Wager) -> DbResult<Wager> {
    match r {
        Ok(_) => Ok(wager),
        Err(e) => Err(e),
    }
}

/// Place a wager on a bet.
///
/// The answer shows the wager and the new probability; the others are told
/// the wager with the pools and the probability right after it.
pub fn place_wager<D: Database>(
    service: &mut CazinoService<D>,
    bet_id: u128,
    user_id: u128,
    req: PlaceWagerRequest,
) -> (r: DbResult<(WagerResponse, WsMessage)>)
    ensures
        final(service).reliable() == old(service).reliable(),
        exists|wager: Wager, wager_id: u128, now: i64|
            {
                &&& r matches Ok(pair) ==> pair.0 == (WagerResponse {
                    bet_id: wager.bet_id,
                    user_id: wager.user_id,
                    side: wager.side,
                    amount: wager.amount,
                    new_probability: wager.probability_after,
                }) && pair.1 == (WsMessage::WagerPlaced {
                    bet_id: wager.bet_id,
                    user_id: wager.user_id,
                    side: wager.side,
                    amount: wager.amount,
                    new_yes_pool: wager.yes_pool_after,
                    new_no_pool: wager.no_pool_after,
                    new_probability: wager.probability_after,
                })
                &&& #[trigger] wager_outcome(
                    old(service).ledger(),
                    old(service).reliable(),
                    bet_id,
                    user_id,
                    req.side,
                    req.amount,
                    wager_id,
                    now,
                    placed(r, wager),
                    final(service).ledger(),
                )
            },
{
    let done = service.place_wager(bet_id, user_id, req.side, req.amount);
    let ghost witness: Wager = done->Ok_0;
    let r = match done {
        Ok(wager) => Ok((WagerResponse::for_wager(&wager), WsMessage::wager_placed(&wager))),
        Err(e) => Err(e),
    };
    proof {
        let (wager_id, now) = choose|wager_id: u128, now: i64| #[trigger]
            wager_outcome(
                old(service).ledger(),
                old(service).reliable(),
                bet_id,
                user_id,
                req.side,
                req.amount,
                wager_id,
                now,
                done,
                service.ledger(),
            );
        assert(placed(r, witness) == done);
        assert(wager_outcome(
            old(service).ledger(),
            old(service).reliable(),
            bet_id,
            user_id,
            req.side,
            req.amount,
            wager_id,
            now,
            placed(r, witness),
            service.ledger(),
        ));
    }
    r
}

/// Get the probability chart of a bet.
pub fn get_probability_chart<D: Database>(service: &CazinoService<D>, bet_id: u128) -> (r: DbResult<
    ProbabilityChartResponse,
>)
    ensures
        r matches Ok(chart) ==> chart.points@ == service.ledger().wagers_for_bet(
            bet_id,
        ).map_values(|w: Wager| chart_point(w)),
        service.reliable() ==> r is Ok,
{
    match service.get_probability_chart(bet_id) {
        Ok(points) => Ok(ProbabilityChartResponse { points }),
        Err(e) => Err(e),
    }
}

/// Resolve a bet (admin only). The others are told the outcome and the
/// status that the bet has now.
///
/// The message is read from the store after the resolution. If the store
/// fails then, the bet has been resolved and paid out all the same.
pub fn resolve_bet<D: Database>(
    service: &mut CazinoService<D>,
    bet_id: u128,
    admin_id: u128,
    req: ResolveBetRequest,
) -> (r: DbResult<WsMessage>)
    ensures
        final(service).reliable() == old(service).reliable(),
        r matches Ok(message) ==> {
            &&& final(service).ledger().find_bet(bet_id) matches Some(bet)
            &&& message == (WsMessage::BetResolved {
                bet_id: bet.id,
                outcome: req.outcome,
                status: bet.status,
            })
            &&& exists|payouts: Vec<(u128, i64)>, now: i64| #[trigger]
                resolution_outcome(
                    old(service).ledger(),
                    old(service).reliable(),
                    bet_id,
                    admin_id,
                    req.outcome,
                    now,
                    Ok(payouts),
                    final(service).ledger(),
                )
        },
        r matches Err(e) ==> (old(service).reliable() ==> exists|now: i64| #[trigger]
            resolution_outcome(
                old(service).ledger(),
                old(service).reliable(),
                bet_id,
                admin_id,
                req.outcome,
                now,
                Err::<Vec<(u128, i64)>, DbError>(e),
                final(service).ledger(),
            )),
{
    let resolved = service.resolve_bet(bet_id, admin_id, req.outcome);
    let ghost now = choose|now: i64| #[trigger]
        resolution_outcome(
            old(service).ledger(),
            old(service).reliable(),
            bet_id,
            admin_id,
            req.outcome,
            now,
            resolved,
            service.ledger(),
        );
    let payouts = match resolved {
        Ok(payouts) => payouts,
        Err(e) => {
            assert(resolution_outcome(
                old(service).ledger(),
                old(service).reliable(),
                bet_id,
                admin_id,
                req.outcome,
                now,
                Err::<Vec<(u128, i64)>, DbError>(e),
                service.ledger(),
            ));
            return Err(e);
        },
    };
    assert(resolution_outcome(
        old(service).ledger(),
        old(service).reliable(),
        bet_id,
        admin_id,
        req.outcome,
        now,
        Ok::<Vec<(u128, i64)>, DbError>(payouts),
        service.ledger(),
    ));
    match service.get_bet(bet_id) {
        Ok(bet) => Ok(WsMessage::bet_resolved(&bet, req.outcome)),
        Err(e) => {
            proof {
                if old(service).reliable() {
                    lemma_resolved_bet_stays(
                        old(service).ledger(),
                        bet_id,
                        admin_id,
                        req.outcome,
                        now,
                        payouts,
                        service.ledger(),
                    );
                }
            }
            Err(e)
        },
    }
}

/// A bet that was resolved is found afterwards.
proof fn lemma_resolved_bet_stays(
    before: Ledger,
    bet_id: u128,
    admin_id: u128,
    outcome: Side,
    now: i64,
    payouts: Vec<(u128, i64)>,
    after: Ledger,
)
    requires
        resolution_outcome(before, true, bet_id, admin_id, outcome, now, Ok(payouts), after),
    ensures
        after.find_bet(bet_id) is Some,
{
    let status = resolved_status(outcome);
    let marked = before.with_bet_status(bet_id, status, now);
    lemma_first_where_map(
        before.bets,
        |b: Bet| b.id == bet_id,
        |b: Bet|
            if b.id == bet_id {
                bet_with_status(b, status, resolution_time(status, now))
            } else {
                b
            },
    );
    lemma_credits_keep_bets(marked, before, payouts@);
}

/// Paying winners leaves the bets as they are.
proof fn lemma_credits_keep_bets(ledger: Ledger, base: Ledger, payouts: Seq<(u128, i64)>)
    ensures
        credited(ledger, base, payouts).bets == ledger.bets,
    decreases payouts.len(),
{
    if payouts.len() > 0 {
        lemma_credits_keep_bets(ledger, base, payouts.drop_last());
    }
}

/// Get the bets about a specific user, with nothing withheld (reveal
/// screen).
pub fn get_reveal<D: Database>(service: &CazinoService<D>, user_id: u128) -> (r: DbResult<
    RevealResponse,
>)
    ensures
        r matches Ok(reveal) ==> reveal.bets@ == service.ledger().bets_about(user_id).map_values(
            |b: Bet| b.projection(false),
        ),
        service.reliable() ==> r is Ok,
{
    match service.get_reveal(user_id) {
        Ok(bets) => Ok(RevealResponse { bets }),
        Err(e) => Err(e),
    }
}

/// Get the markets that a device has joined, each with the device's user
/// in it, no user twice: all of them, or, where there are more,
/// `DEVICE_MARKETS_LIMIT` of them, in the order in which the store lists
/// them.
pub fn get_device_markets<D: Database>(service: &CazinoService<D>, device_id: &str) -> (r: DbResult<
    DeviceMarketsResponse,
>)
    ensures
        r matches Ok(listing) ==> service.ledger().device_listing(
            device_id@,
            listing.pairs(),
            DEVICE_MARKETS_LIMIT as int,
        ),
        service.reliable() ==> r is Ok,
{
    match service.get_markets_by_device_id(device_id) {
        Ok(pairs) => Ok(DeviceMarketsResponse::new(pairs)),
        Err(e) => Err(e),
    }
}

} // verus!
