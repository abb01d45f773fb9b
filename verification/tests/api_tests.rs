use cazino::api::leaderboard::{leaderboard, rank_users};
use cazino::api::models::{
    default_starting_balance, revealed_views, BetResponse, CreateMarketRequest,
    CreateMarketResponse, DeviceMarketsResponse, ErrorResponse, RevealResponse, WagerResponse,
    WsMessage,
};
use cazino::db::codec::{
    deserialize_bet_status, deserialize_market_status, deserialize_side, serialize_bet_status,
    serialize_market_status, serialize_side,
};
use cazino::api::models::{
    CreateBetRequest, JoinMarketRequest, PlaceWagerRequest, ResolveBetRequest,
};
use cazino::api::routes;
use cazino::db::{DbError, MemoryDatabase};
use cazino::service::invite::is_valid_invite_code;
use cazino::service::CazinoService;
use cazino::domain::models::{
    Bet, BetStatus, Market, MarketStatus, Probability, Side, User, Wager,
};
use cazino::text::{push_decimal, to_decimal, uuid_text};

fn market(starting_balance: i64) -> Market {
    Market {
        id: 1,
        name: "Party".to_string(),
        status: MarketStatus::Open,
        created_by: 10,
        opens_at: 0,
        closes_at: 1,
        starting_balance,
        invite_code: "PARTY2".to_string(),
        created_at: 0,
    }
}

fn user(id: u128, balance: i64) -> User {
    User {
        id,
        market_id: 1,
        device_id: format!("device-{}", id),
        display_name: format!("user {}", id),
        avatar: "🙂".to_string(),
        balance,
        is_admin: false,
        joined_at: 0,
    }
}

fn bet(status: BetStatus, hide_from_subject: bool) -> Bet {
    Bet {
        id: 100,
        market_id: 1,
        subject_user_id: 12,
        created_by: 11,
        description: "Bob will sing".to_string(),
        initial_odds: "3:1".to_string(),
        status,
        yes_pool: 70,
        no_pool: 30,
        hide_from_subject,
        created_at: 5,
        resolved_at: None,
    }
}

#[test]
fn leaderboard_ranks_by_position() {
    let users = vec![user(1, 900), user(2, 1200), user(3, 1000), user(4, 1000), user(5, 1000), user(6, 50)];
    let board = leaderboard(&market(1000), users);
    let ids: Vec<u128> = board.users.iter().map(|e| e.user.id).collect();
    // Equal balances keep the order in which they came.
    assert_eq!(ids, vec![2, 3, 4, 5, 1, 6]);
    let ranks: Vec<usize> = board.users.iter().map(|e| e.rank).collect();
    // Equal balances get consecutive ranks, not a shared one.
    assert_eq!(ranks, vec![1, 2, 3, 4, 5, 6]);
    let profits: Vec<i64> = board.users.iter().map(|e| e.profit).collect();
    assert_eq!(profits, vec![200, 0, 0, 0, -100, -950]);
}

#[test]
fn leaderboard_of_two_equals_behind_a_leader() {
    let board = leaderboard(&market(1000), vec![user(1, 1000), user(2, 1000), user(3, 1500)]);
    assert_eq!(board.users[0].user.id, 3);
    assert_eq!(board.users[0].rank, 1);
    assert_eq!(board.users[1].user.balance, board.users[2].user.balance);
    assert_eq!(board.users[1].rank, 2);
    assert_eq!(board.users[2].rank, 3);
    assert_eq!((board.users[1].user.id, board.users[2].user.id), (1, 2));
    assert!(leaderboard(&market(1000), vec![]).users.is_empty());
}

#[test]
fn ranking_sorts_any_order() {
    let balances = [5i64, -3, 5, 0, 12, i64::MAX, i64::MIN, 7, 7, 7, 1];
    let users: Vec<User> = balances.iter().enumerate().map(|(i, b)| user(i as u128, *b)).collect();
    let ranked = rank_users(users);
    assert_eq!(ranked.len(), balances.len());
    for pair in ranked.windows(2) {
        assert!(pair[0].balance >= pair[1].balance);
        if pair[0].balance == pair[1].balance {
            assert!(pair[0].id < pair[1].id);
        }
    }
    let mut ids: Vec<u128> = ranked.iter().map(|u| u.id).collect();
    ids.sort();
    assert_eq!(ids, (0..balances.len() as u128).collect::<Vec<u128>>());
}

#[test]
fn hidden_bets_are_redacted_for_their_subject_only() {
    for status in [BetStatus::Pending, BetStatus::Active] {
        let hidden = bet(status, true);
        let view = hidden.to_view(12);
        assert!(view.is_hidden);
        assert_eq!(view.subject_user_id, None);
        assert_eq!(view.description, None);
        // The rest stays visible.
        assert_eq!(view.id, 100);
        assert_eq!(view.market_id, 1);
        assert_eq!(view.created_by, 11);
        assert_eq!(view.initial_odds, "3:1");
        assert_eq!(view.status, status);
        assert_eq!((view.yes_pool, view.no_pool), (70, 30));
        assert_eq!(view.created_at, 5);
        assert_eq!(view.resolved_at, None);
        // Everyone else sees all of it.
        for viewer in [11u128, 10, 0] {
            let view = hidden.to_view(viewer);
            assert!(!view.is_hidden);
            assert_eq!(view.subject_user_id, Some(12));
            assert_eq!(view.description, Some("Bob will sing".to_string()));
        }
        // A bet that is not marked is never hidden.
        let open = bet(status, false);
        assert!(!open.to_view(12).is_hidden);
        assert_eq!(open.to_view(12).description, Some("Bob will sing".to_string()));
    }
    for status in [BetStatus::ResolvedYes, BetStatus::ResolvedNo, BetStatus::Challenged] {
        let view = bet(status, true).to_view(12);
        assert!(!view.is_hidden);
        assert_eq!(view.subject_user_id, Some(12));
        assert_eq!(view.description, Some("Bob will sing".to_string()));
    }
}

#[test]
fn reveal_withholds_nothing() {
    let mut about_nobody = bet(BetStatus::Active, true);
    about_nobody.subject_user_id = 0;
    let bets = vec![bet(BetStatus::Active, true), bet(BetStatus::Pending, true), about_nobody];
    let views = revealed_views(&bets);
    assert_eq!(views.len(), 3);
    for (view, bet) in views.iter().zip(bets.iter()) {
        assert!(!view.is_hidden);
        assert_eq!(view.subject_user_id, Some(bet.subject_user_id));
        assert_eq!(view.description, Some("Bob will sing".to_string()));
    }
    assert_eq!(RevealResponse::new(&bets).bets.len(), 3);
    let view = bets[0].to_revealed_view();
    assert!(!view.is_hidden);
    assert_eq!(view.status, BetStatus::Active);
}

#[test]
fn requests_and_responses() {
    assert_eq!(default_starting_balance(), 1000);
    let request = CreateMarketRequest {
        name: "Party".to_string(),
        admin_name: "Ann".to_string(),
        duration_hours: 48,
        starting_balance: default_starting_balance(),
        device_id: Some("my-device".to_string()),
        invite_code: Some("FAMK23".to_string()),
    };
    let params = request.into_params("fallback".to_string());
    assert_eq!(params.name, "Party");
    assert_eq!(params.admin_name, "Ann");
    assert_eq!(params.admin_device_id, "my-device");
    assert_eq!(params.admin_avatar, "👑");
    assert_eq!(params.starting_balance, 1000);
    assert_eq!(params.duration_hours, 48);
    assert_eq!(params.custom_invite_code, Some("FAMK23".to_string()));
    let request = CreateMarketRequest {
        name: "Party".to_string(),
        admin_name: "Ann".to_string(),
        duration_hours: 48,
        starting_balance: 5,
        device_id: None,
        invite_code: None,
    };
    let params = request.into_params("fallback".to_string());
    assert_eq!(params.admin_device_id, "fallback");
    assert_eq!(params.custom_invite_code, None);

    let response = CreateMarketResponse::new(market(1000), user(10, 1000));
    assert_eq!(response.invite_code, "PARTY2");
    assert_eq!(response.market.id, 1);
    assert_eq!(response.user.id, 10);

    let response = BetResponse::for_creator(&bet(BetStatus::Active, true), 12);
    assert!(response.bet.is_hidden);
    let response = BetResponse::for_creator(&bet(BetStatus::Active, true), 11);
    assert!(!response.bet.is_hidden);

    let response = ErrorResponse::for_error(&DbError::NotFound("Bet not found".to_string()));
    assert_eq!(response.error, "Not found: Bet not found");

    let response = DeviceMarketsResponse::new(vec![(market(1000), user(10, 7)), (market(5), user(11, 8))]);
    assert_eq!(response.markets.len(), 2);
    assert_eq!(response.markets[1].market.starting_balance, 5);
    assert_eq!(response.markets[1].user.id, 11);
}

#[test]
fn notifications_carry_the_new_odds() {
    let wager = Wager {
        id: 200,
        bet_id: 100,
        user_id: 11,
        side: Side::No,
        amount: 40,
        placed_at: 9,
        yes_pool_after: 60,
        no_pool_after: 40,
        probability_after: Probability { numerator: 60, denominator: 100 },
    };
    match WsMessage::wager_placed(&wager) {
        WsMessage::WagerPlaced {
            bet_id,
            user_id,
            side,
            amount,
            new_yes_pool,
            new_no_pool,
            new_probability,
        } => {
            assert_eq!((bet_id, user_id, side, amount), (100, 11, Side::No, 40));
            assert_eq!((new_yes_pool, new_no_pool), (60, 40));
            assert_eq!(new_probability, Probability { numerator: 60, denominator: 100 });
        }
        other => panic!("unexpected: {:?}", other),
    }
    assert_eq!(
        WagerResponse::for_wager(&wager),
        WagerResponse {
            bet_id: 100,
            user_id: 11,
            side: Side::No,
            amount: 40,
            new_probability: Probability { numerator: 60, denominator: 100 },
        }
    );
    assert!(matches!(
        WsMessage::user_joined(&market(1000), &user(11, 1000)),
        WsMessage::UserJoined { user_id: 11, market_id: 1, .. }
    ));
    assert!(matches!(
        WsMessage::bet_created(&bet(BetStatus::Active, false)),
        WsMessage::BetCreated { bet_id: 100, .. }
    ));
    assert!(matches!(
        WsMessage::bet_resolved(&bet(BetStatus::ResolvedNo, false), Side::No),
        WsMessage::BetResolved { bet_id: 100, outcome: Side::No, status: BetStatus::ResolvedNo }
    ));
    assert!(matches!(
        WsMessage::market_status_changed(&market(1000)),
        WsMessage::MarketStatusChanged { market_id: 1, status: MarketStatus::Open }
    ));
}

#[test]
fn statuses_and_sides_as_text() {
    assert_eq!(serialize_market_status(MarketStatus::Draft), "draft");
    assert_eq!(serialize_market_status(MarketStatus::Open), "open");
    assert_eq!(serialize_market_status(MarketStatus::Closed), "closed");
    assert_eq!(serialize_market_status(MarketStatus::Resolved), "resolved");
    assert_eq!(serialize_bet_status(BetStatus::Pending), "pending");
    assert_eq!(serialize_bet_status(BetStatus::Active), "active");
    assert_eq!(serialize_bet_status(BetStatus::ResolvedYes), "resolved_yes");
    assert_eq!(serialize_bet_status(BetStatus::ResolvedNo), "resolved_no");
    assert_eq!(serialize_bet_status(BetStatus::Challenged), "challenged");
    assert_eq!(serialize_side(Side::Yes), "YES");
    assert_eq!(serialize_side(Side::No), "NO");
    for status in [MarketStatus::Draft, MarketStatus::Open, MarketStatus::Closed, MarketStatus::Resolved] {
        assert_eq!(deserialize_market_status(&serialize_market_status(status)), status);
    }
    for status in [
        BetStatus::Pending,
        BetStatus::Active,
        BetStatus::ResolvedYes,
        BetStatus::ResolvedNo,
        BetStatus::Challenged,
    ] {
        assert_eq!(deserialize_bet_status(&serialize_bet_status(status)), status);
    }
    for side in [Side::Yes, Side::No] {
        assert_eq!(deserialize_side(&serialize_side(side)), side);
    }
    // What is not known reads as the first value.
    assert_eq!(deserialize_market_status("OPEN"), MarketStatus::Draft);
    assert_eq!(deserialize_market_status(""), MarketStatus::Draft);
    assert_eq!(deserialize_bet_status("resolved"), BetStatus::Pending);
    assert_eq!(deserialize_side("no"), Side::Yes);
    assert_eq!(deserialize_side("maybe"), Side::Yes);
}

#[test]
fn decimal_notation() {
    assert_eq!(to_decimal(0), "0");
    assert_eq!(to_decimal(7), "7");
    assert_eq!(to_decimal(10), "10");
    assert_eq!(to_decimal(-5), "-5");
    assert_eq!(to_decimal(1234567890), "1234567890");
    assert_eq!(to_decimal(i64::MAX), "9223372036854775807");
    assert_eq!(to_decimal(i64::MIN), "-9223372036854775808");
    for n in [-1000i64, -99, -1, 1, 9, 99, 100, 101, 65536, 1_000_000_007] {
        assert_eq!(to_decimal(n), format!("{}", n));
    }
    let mut text = "have ".to_string();
    push_decimal(&mut text, -42);
    assert_eq!(text, "have -42");
}

fn create_request(device_id: Option<&str>, invite_code: Option<&str>) -> CreateMarketRequest {
    CreateMarketRequest {
        name: "Party".to_string(),
        admin_name: "Ann".to_string(),
        duration_hours: 24,
        starting_balance: 1000,
        device_id: device_id.map(|d| d.to_string()),
        invite_code: invite_code.map(|c| c.to_string()),
    }
}

fn join_request(name: &str, device_id: Option<&str>) -> JoinMarketRequest {
    JoinMarketRequest {
        display_name: name.to_string(),
        avatar: "🙂".to_string(),
        device_id: device_id.map(|d| d.to_string()),
    }
}

#[test]
fn a_game_through_the_front_end() {
    let mut service = CazinoService::new(MemoryDatabase::new());

    // Create: the answer carries the invite code, the others see the market.
    let (created, message) =
        routes::create_market(&mut service, create_request(Some("ann-device"), Some("FAMK23")))
            .unwrap();
    assert_eq!(created.invite_code, "FAMK23");
    assert_eq!(created.market.invite_code, "FAMK23");
    assert_eq!(created.market.status, MarketStatus::Draft);
    assert_eq!(created.user.device_id, "ann-device");
    assert_eq!(created.user.avatar, "👑");
    assert!(created.user.is_admin);
    match message {
        WsMessage::MarketUpdate { market } => assert_eq!(market.id, created.market.id),
        other => panic!("unexpected: {:?}", other),
    }
    let market_id = created.market.id;
    let ann = created.user.id;

    // Join, with and without a device.
    let (joined, message) =
        routes::join_market(&mut service, "FAMK23".to_string(), join_request("Bob", Some("bob-device")))
            .unwrap();
    assert_eq!(joined.market.id, market_id);
    assert_eq!(joined.user.display_name, "Bob");
    assert_eq!(joined.user.device_id, "bob-device");
    assert_eq!(joined.user.balance, 1000);
    match message {
        WsMessage::UserJoined { user_id, display_name, market_id: m } => {
            assert_eq!((user_id, display_name.as_str(), m), (joined.user.id, "Bob", market_id));
        }
        other => panic!("unexpected: {:?}", other),
    }
    let bob = joined.user.id;
    let (carol, _) =
        routes::join_market(&mut service, "FAMK23".to_string(), join_request("Carol", None)).unwrap();
    // A device was made up for her: a UUID as text.
    assert_eq!(carol.user.device_id.len(), 36);
    assert!(uuid::Uuid::parse_str(&carol.user.device_id).is_ok());
    let (dave, _) =
        routes::join_market(&mut service, "FAMK23".to_string(), join_request("Dave", None)).unwrap();
    assert_ne!(dave.user.device_id, carol.user.device_id);
    assert!(matches!(
        routes::join_market(&mut service, "NOSUCH".to_string(), join_request("Eve", None)),
        Err(DbError::NotFound(_))
    ));

    // Open.
    assert!(matches!(
        routes::open_market(&mut service, market_id, bob),
        Err(DbError::Constraint(_))
    ));
    match routes::open_market(&mut service, market_id, ann).unwrap() {
        WsMessage::MarketStatusChanged { market_id: m, status } => {
            assert_eq!((m, status), (market_id, MarketStatus::Open));
        }
        other => panic!("unexpected: {:?}", other),
    }

    // A hidden bet about Bob.
    let request = CreateBetRequest {
        subject_user_id: bob,
        description: "Bob will sing".to_string(),
        initial_odds: "3:1".to_string(),
        opening_wager: 100,
        hide_from_subject: true,
    };
    let (answer, message) = routes::create_bet(&mut service, market_id, ann, request).unwrap();
    assert!(!answer.bet.is_hidden);
    assert_eq!(answer.bet.description, Some("Bob will sing".to_string()));
    assert_eq!((answer.bet.yes_pool, answer.bet.no_pool), (100, 0));
    let bet_id = answer.bet.id;
    match message {
        WsMessage::BetCreated { bet_id: b, description } => {
            assert_eq!((b, description.as_str()), (bet_id, "Bob will sing"));
        }
        other => panic!("unexpected: {:?}", other),
    }
    assert!(routes::get_pending_bets(&service, market_id).unwrap().is_empty());
    assert!(matches!(
        routes::approve_bet(&mut service, bet_id, ann).unwrap(),
        WsMessage::BetApproved { bet_id: b } if b == bet_id
    ));
    assert!(matches!(routes::approve_bet(&mut service, bet_id, bob), Err(DbError::Constraint(_))));

    // A wager: the answer and the message carry the new odds.
    let request = PlaceWagerRequest { side: Side::No, amount: 300 };
    let (answer, message) =
        routes::place_wager(&mut service, bet_id, carol.user.id, request).unwrap();
    assert_eq!(
        answer,
        WagerResponse {
            bet_id,
            user_id: carol.user.id,
            side: Side::No,
            amount: 300,
            new_probability: Probability { numerator: 100, denominator: 400 },
        }
    );
    match message {
        WsMessage::WagerPlaced { new_yes_pool, new_no_pool, new_probability, amount, .. } => {
            assert_eq!((new_yes_pool, new_no_pool, amount), (100, 300, 300));
            assert_eq!(new_probability, Probability { numerator: 100, denominator: 400 });
        }
        other => panic!("unexpected: {:?}", other),
    }
    let request = PlaceWagerRequest { side: Side::Yes, amount: 10 };
    assert!(matches!(
        routes::place_wager(&mut service, bet_id, bob, request),
        Err(DbError::Constraint(_))
    ));

    let chart = routes::get_probability_chart(&service, bet_id).unwrap();
    assert_eq!(chart.points.len(), 2);
    assert_eq!(chart.points[1].yes_probability, Probability { numerator: 100, denominator: 400 });

    // Resolve: the others are told the outcome and the status.
    let request = ResolveBetRequest { outcome: Side::No };
    assert!(matches!(
        routes::resolve_bet(&mut service, bet_id, bob, request),
        Err(DbError::Constraint(_))
    ));
    match routes::resolve_bet(&mut service, bet_id, ann, request).unwrap() {
        WsMessage::BetResolved { bet_id: b, outcome, status } => {
            assert_eq!((b, outcome, status), (bet_id, Side::No, BetStatus::ResolvedNo));
        }
        other => panic!("unexpected: {:?}", other),
    }
    assert_eq!(service.get_user(carol.user.id).unwrap().balance, 1000 - 300 + 400);

    match routes::close_market(&mut service, market_id, ann).unwrap() {
        WsMessage::MarketStatusChanged { status, .. } => assert_eq!(status, MarketStatus::Closed),
        other => panic!("unexpected: {:?}", other),
    }
    assert!(matches!(
        routes::open_market(&mut service, market_id, ann),
        Err(DbError::Constraint(_))
    ));

    let reveal = routes::get_reveal(&service, bob).unwrap();
    assert_eq!(reveal.bets.len(), 1);
    assert_eq!(reveal.bets[0].description, Some("Bob will sing".to_string()));

    let listing = routes::get_device_markets(&service, "bob-device").unwrap();
    assert_eq!(listing.markets.len(), 1);
    assert_eq!(listing.markets[0].market.id, market_id);
    assert_eq!(listing.markets[0].user.id, bob);
}

#[test]
fn a_market_without_device_and_code_gets_both() {
    let mut service = CazinoService::new(MemoryDatabase::new());
    let (created, _) = routes::create_market(&mut service, create_request(None, None)).unwrap();
    assert!(is_valid_invite_code(&created.invite_code));
    assert!(uuid::Uuid::parse_str(&created.user.device_id).is_ok());
    let (again, _) = routes::create_market(&mut service, create_request(None, Some("bad"))).unwrap();
    assert!(is_valid_invite_code(&again.invite_code));
    assert_ne!(again.invite_code, "bad");
    assert_ne!(again.user.device_id, created.user.device_id);
}

#[test]
fn identifiers_as_uuid_text() {
    assert_eq!(uuid_text(0), "00000000-0000-0000-0000-000000000000");
    assert_eq!(uuid_text(u128::MAX), "ffffffff-ffff-ffff-ffff-ffffffffffff");
    assert_eq!(
        uuid_text(0xa1a2a3a4b1b2c1c2d1d2d3d4d5d6d7d8),
        "a1a2a3a4-b1b2-c1c2-d1d2-d3d4d5d6d7d8"
    );
    assert_eq!(uuid_text(0x0123456789abcdef0123456789abcdef), "01234567-89ab-cdef-0123-456789abcdef");
    for _ in 0..50 {
        let id = uuid::Uuid::new_v4();
        assert_eq!(uuid_text(id.as_u128()), id.to_string());
    }
}
