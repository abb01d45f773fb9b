use cazino::db::{D1Database, Database, DbError, MemoryDatabase};
use cazino::domain::models::{BetStatus, MarketStatus, Probability, Side};
use cazino::service::invite::{
    alphabet_char, choose_invite_code, generate_invite_code, is_valid_invite_code,
};
use cazino::service::plans::{closing_time, credited_balance, probability_chart};
use cazino::service::{CazinoService, CreateMarketParams};

fn params(name: &str, device: &str, code: Option<&str>) -> CreateMarketParams {
    CreateMarketParams {
        name: name.to_string(),
        admin_device_id: device.to_string(),
        admin_name: "Admin".to_string(),
        admin_avatar: "👑".to_string(),
        starting_balance: 1000,
        duration_hours: 24,
        custom_invite_code: code.map(|c| c.to_string()),
    }
}

/// A market (id 1, code PARTY2) that is open, with its admin (id 10) and
/// two members (ids 11 and 12), at time 1000.
fn open_market() -> CazinoService<MemoryDatabase> {
    let mut service = CazinoService::new(MemoryDatabase::new());
    service
        .create_market_with(params("Party", "admin-device", None), 1, 10, "PARTY2".to_string(), 1000)
        .unwrap();
    for (id, name) in [(11u128, "alice"), (12u128, "bob")] {
        service
            .join_market_with(
                "PARTY2".to_string(),
                format!("{}-device", name),
                name.to_string(),
                "🙂".to_string(),
                id,
                1001,
            )
            .unwrap();
    }
    service.open_market(1, 10).unwrap();
    service
}

#[test]
fn create_market_with_builds_market_and_admin() {
    let mut service = CazinoService::new(MemoryDatabase::new());
    let (market, admin) = service
        .create_market_with(params("Party", "admin-device", None), 1, 10, "PARTY2".to_string(), 1000)
        .unwrap();
    assert_eq!(market.id, 1);
    assert_eq!(market.name, "Party");
    assert_eq!(market.status, MarketStatus::Draft);
    assert_eq!(market.created_by, 10);
    assert_eq!(market.opens_at, 1000);
    assert_eq!(market.created_at, 1000);
    assert_eq!(market.closes_at, 1000 + 24 * 3_600_000);
    assert_eq!(market.starting_balance, 1000);
    assert_eq!(market.invite_code, "PARTY2");
    assert_eq!(admin.id, 10);
    assert_eq!(admin.market_id, 1);
    assert_eq!(admin.device_id, "admin-device");
    assert_eq!(admin.display_name, "Admin");
    assert_eq!(admin.avatar, "👑");
    assert_eq!(admin.balance, 1000);
    assert!(admin.is_admin);
    assert_eq!(admin.joined_at, 1000);
    assert_eq!(service.get_market(1).unwrap().invite_code, "PARTY2");
    assert_eq!(service.get_user(10).unwrap().display_name, "Admin");
}

#[test]
fn create_market_draws_fresh_identifiers_and_the_time() {
    let mut service = CazinoService::new(MemoryDatabase::new());
    let (first, first_admin) = service.create_market(params("One", "d1", None)).unwrap();
    let (second, second_admin) = service.create_market(params("Two", "d2", None)).unwrap();
    let ids = [first.id, first_admin.id, second.id, second_admin.id];
    for i in 0..ids.len() {
        for j in 0..i {
            assert_ne!(ids[i], ids[j]);
        }
    }
    assert_eq!(first.created_by, first_admin.id);
    assert_eq!(first_admin.market_id, first.id);
    // 2020-01-01 in milliseconds: the clock is read, not made up.
    assert!(first.created_at > 1_577_836_800_000);
    assert_eq!(first.opens_at, first.created_at);
    assert_eq!(first.closes_at - first.opens_at, 24 * 3_600_000);
    assert!(second.created_at >= first.created_at);
}

#[test]
fn custom_invite_codes() {
    let mut service = CazinoService::new(MemoryDatabase::new());
    let (market, _) = service.create_market(params("One", "d1", Some("FAMK23"))).unwrap();
    assert_eq!(market.invite_code, "FAMK23");
    // Too short, lower case, look-alike characters: a random code replaces them.
    for (i, bad) in ["FAM", "famk23", "FAMK01", "FAMILYX", "FAM K2", "FAMK2é", ""].iter().enumerate() {
        let (market, _) =
            service.create_market(params("More", &format!("device-{}", i), Some(bad))).unwrap();
        assert_ne!(market.invite_code, *bad);
        assert!(is_valid_invite_code(&market.invite_code));
    }
}

#[test]
fn invite_codes() {
    assert!(is_valid_invite_code("ABCDEF"));
    assert!(is_valid_invite_code("Z9Y8X7"));
    assert!(is_valid_invite_code("234567"));
    for bad in ["", "ABCDE", "ABCDEFG", "abcdef", "ABCDE0", "ABCDE1", "ABCDEI", "ABCDEO", "ABC-EF", "ABCDEé"] {
        assert!(!is_valid_invite_code(bad), "{}", bad);
    }
    for _ in 0..200 {
        let code = generate_invite_code();
        assert_eq!(code.len(), 6);
        assert!(is_valid_invite_code(&code));
    }
    assert_eq!(alphabet_char(0), "A");
    assert_eq!(alphabet_char(8), "J");
    assert_eq!(alphabet_char(23), "Z");
    assert_eq!(alphabet_char(24), "2");
    assert_eq!(alphabet_char(31), "9");
    assert_eq!(choose_invite_code(Some("FAMK23".to_string())), "FAMK23");
    assert!(is_valid_invite_code(&choose_invite_code(Some("nope".to_string()))));
    assert!(is_valid_invite_code(&choose_invite_code(None)));
}

#[test]
fn market_duration_must_be_representable() {
    let mut service = CazinoService::new(MemoryDatabase::new());
    let mut p = params("Long", "d1", None);
    p.duration_hours = i64::MAX;
    let result = service.create_market_with(p, 1, 10, "PARTY2".to_string(), 1000);
    match result {
        Err(DbError::Constraint(text)) => assert_eq!(text, "Market duration is out of range"),
        other => panic!("unexpected: {:?}", other),
    }
    assert!(service.get_market(1).is_err());
    assert_eq!(closing_time(1000, 24), Some(1000 + 86_400_000));
    assert_eq!(closing_time(0, -1), Some(-3_600_000));
    assert_eq!(closing_time(i64::MAX, 0), Some(i64::MAX));
    assert_eq!(closing_time(i64::MAX, 1), None);
    assert_eq!(closing_time(0, i64::MAX), None);
    assert_eq!(closing_time(i64::MIN, -1), None);
}

#[test]
fn identifiers_and_keys_are_unique() {
    let mut service = open_market();
    // Market id in use.
    assert!(matches!(
        service.create_market_with(params("Again", "x", None), 1, 20, "OTHER2".to_string(), 5),
        Err(DbError::Internal(_))
    ));
    // Invite code in use.
    assert!(matches!(
        service.create_market_with(params("Again", "x", None), 2, 20, "PARTY2".to_string(), 5),
        Err(DbError::Internal(_))
    ));
    // Admin id in use: nothing is written, the market id stays free.
    assert!(matches!(
        service.create_market_with(params("Again", "x", None), 2, 11, "OTHER2".to_string(), 5),
        Err(DbError::Internal(_))
    ));
    assert!(matches!(service.get_market(2), Err(DbError::NotFound(_))));
    // User id in use.
    assert!(matches!(
        service.join_market_with(
            "PARTY2".to_string(),
            "carol-device".to_string(),
            "carol".to_string(),
            "🙂".to_string(),
            11,
            5
        ),
        Err(DbError::Internal(_))
    ));
    assert_eq!(service.get_users(1).unwrap().len(), 3);
}

#[test]
fn rejoining_returns_the_first_user_whatever_happened_since() {
    let mut service = open_market();
    service
        .create_bet_with(1, 11, 12, "d".to_string(), "1:1".to_string(), 100, false, 100, 200, 2000)
        .unwrap();
    let (market, again) = service
        .join_market_with(
            "PARTY2".to_string(),
            "alice-device".to_string(),
            "Alice the Second".to_string(),
            "👸".to_string(),
            99,
            3000,
        )
        .unwrap();
    assert_eq!(market.id, 1);
    assert_eq!(again.id, 11);
    assert_eq!(again.display_name, "alice");
    assert_eq!(again.avatar, "🙂");
    assert_eq!(again.joined_at, 1001);
    assert_eq!(again.balance, 900);
    assert!(service.get_user(99).is_err());
    assert_eq!(service.get_users(1).unwrap().len(), 3);
    // The same device is a new user in another market.
    service
        .create_market_with(params("Other", "admin-device", None), 2, 20, "OTHER2".to_string(), 1000)
        .unwrap();
    let (_, elsewhere) = service
        .join_market_with(
            "OTHER2".to_string(),
            "alice-device".to_string(),
            "Alice".to_string(),
            "👩".to_string(),
            21,
            3000,
        )
        .unwrap();
    assert_eq!(elsewhere.id, 21);
    assert_eq!(elsewhere.display_name, "Alice");
}

#[test]
fn bets_are_created_active_with_the_opening_wager_on_yes() {
    let mut service = open_market();
    let bet = service
        .create_bet_with(
            1,
            11,
            12,
            "Bob will sing".to_string(),
            "3:1".to_string(),
            100,
            true,
            100,
            200,
            2000,
        )
        .unwrap();
    assert_eq!(bet.id, 100);
    assert_eq!(bet.market_id, 1);
    assert_eq!(bet.subject_user_id, 12);
    assert_eq!(bet.created_by, 11);
    assert_eq!(bet.description, "Bob will sing");
    assert_eq!(bet.initial_odds, "3:1");
    assert_eq!(bet.status, BetStatus::Active);
    // The label says 3:1; the pools do not.
    assert_eq!((bet.yes_pool, bet.no_pool), (100, 0));
    assert!(bet.hide_from_subject);
    assert_eq!(bet.created_at, 2000);
    assert_eq!(bet.resolved_at, None);
    assert_eq!(service.get_user(11).unwrap().balance, 900);
    let wagers = service.database().get_wagers_for_bet(100).unwrap();
    assert_eq!(wagers.len(), 1);
    assert_eq!(wagers[0].id, 200);
    assert_eq!(wagers[0].user_id, 11);
    assert_eq!(wagers[0].side, Side::Yes);
    assert_eq!(wagers[0].amount, 100);
    assert_eq!(wagers[0].placed_at, 2000);
    assert_eq!((wagers[0].yes_pool_after, wagers[0].no_pool_after), (100, 0));
    assert_eq!(wagers[0].probability_after, Probability { numerator: 100, denominator: 100 });
    assert!(service.get_pending_bets(1).unwrap().is_empty());
}

#[test]
fn a_creator_may_bet_about_themselves_but_not_wager_on_it() {
    let mut service = open_market();
    let bet = service
        .create_bet_with(1, 11, 11, "I will win".to_string(), "1:1".to_string(), 10, false, 100, 200, 2000)
        .unwrap();
    assert_eq!(bet.subject_user_id, 11);
    match service.place_wager_with(100, 11, Side::Yes, 10, 201, 2001) {
        Err(DbError::Constraint(text)) => assert_eq!(text, "Cannot bet on bets about yourself"),
        other => panic!("unexpected: {:?}", other),
    }
}

#[test]
fn malformed_odds_are_a_constraint_violation() {
    let mut service = open_market();
    match service.create_bet_with(1, 11, 12, "d".to_string(), "three to one".to_string(), 100, false, 100, 200, 2000) {
        Err(DbError::Constraint(text)) => assert_eq!(text, "Invalid odds format"),
        other => panic!("unexpected: {:?}", other),
    }
    // The rules come before the label.
    match service.create_bet_with(1, 11, 12, "d".to_string(), "bad".to_string(), 5000, false, 100, 200, 2000) {
        Err(DbError::Constraint(text)) => {
            assert_eq!(text, "Insufficient balance: need 5000, have 1000")
        }
        other => panic!("unexpected: {:?}", other),
    }
    assert!(service.get_bet(100).is_err());
    assert_eq!(service.get_user(11).unwrap().balance, 1000);
}

#[test]
fn a_bet_whose_identifiers_are_in_use_is_not_created() {
    let mut service = open_market();
    service
        .create_bet_with(1, 11, 12, "d".to_string(), "1:1".to_string(), 100, false, 100, 200, 2000)
        .unwrap();
    // Bet id in use.
    assert!(matches!(
        service.create_bet_with(1, 11, 12, "e".to_string(), "1:1".to_string(), 10, false, 100, 201, 2001),
        Err(DbError::Internal(_))
    ));
    // Wager id in use: the bet is not created either.
    assert!(matches!(
        service.create_bet_with(1, 11, 12, "e".to_string(), "1:1".to_string(), 10, false, 101, 200, 2001),
        Err(DbError::Internal(_))
    ));
    assert!(matches!(service.get_bet(101), Err(DbError::NotFound(_))));
    assert_eq!(service.get_user(11).unwrap().balance, 900);
    assert_eq!(service.get_bets(1, 0).unwrap().len(), 1);
}

#[test]
fn bets_cannot_be_created_in_a_closed_market() {
    let mut service = open_market();
    service.close_market(1, 10).unwrap();
    match service.create_bet_with(1, 11, 12, "d".to_string(), "1:1".to_string(), 100, false, 100, 200, 2000) {
        Err(DbError::Constraint(text)) => {
            assert_eq!(text, "Market not in correct status for this action")
        }
        other => panic!("unexpected: {:?}", other),
    }
}

#[test]
fn a_wager_updates_pools_snapshot_and_balance() {
    let mut service = open_market();
    service
        .create_bet_with(1, 11, 12, "d".to_string(), "1:1".to_string(), 100, false, 100, 200, 2000)
        .unwrap();
    let wager = service.place_wager_with(100, 10, Side::No, 200, 201, 2001).unwrap();
    assert_eq!(wager.id, 201);
    assert_eq!(wager.bet_id, 100);
    assert_eq!(wager.user_id, 10);
    assert_eq!(wager.side, Side::No);
    assert_eq!(wager.amount, 200);
    assert_eq!(wager.placed_at, 2001);
    assert_eq!((wager.yes_pool_after, wager.no_pool_after), (100, 200));
    assert_eq!(wager.probability_after, Probability { numerator: 100, denominator: 300 });
    let bet = service.get_bet(100).unwrap();
    assert_eq!((bet.yes_pool, bet.no_pool), (100, 200));
    assert_eq!(service.get_user(10).unwrap().balance, 800);
    // A refused wager changes nothing.
    assert!(matches!(
        service.place_wager_with(100, 10, Side::No, 801, 202, 2002),
        Err(DbError::Constraint(_))
    ));
    assert!(matches!(
        service.place_wager_with(100, 10, Side::No, 0, 202, 2002),
        Err(DbError::Constraint(_))
    ));
    // Wager id in use.
    assert!(matches!(
        service.place_wager_with(100, 10, Side::No, 1, 201, 2002),
        Err(DbError::Internal(_))
    ));
    let bet = service.get_bet(100).unwrap();
    assert_eq!((bet.yes_pool, bet.no_pool), (100, 200));
    assert_eq!(service.get_user(10).unwrap().balance, 800);
    assert_eq!(service.database().get_wagers_for_bet(100).unwrap().len(), 2);
    assert_eq!(service.database().get_wagers_for_user(10).unwrap().len(), 1);
}

#[test]
fn wagers_need_an_open_market() {
    let mut service = CazinoService::new(MemoryDatabase::new());
    service
        .create_market_with(params("Party", "admin-device", None), 1, 10, "PARTY2".to_string(), 1000)
        .unwrap();
    service
        .join_market_with("PARTY2".to_string(), "a".to_string(), "alice".to_string(), "🙂".to_string(), 11, 1001)
        .unwrap();
    // Bets can be created in draft, wagers cannot be placed.
    service
        .create_bet_with(1, 11, 10, "d".to_string(), "1:1".to_string(), 100, false, 100, 200, 2000)
        .unwrap();
    match service.place_wager_with(100, 11, Side::No, 10, 201, 2001) {
        Err(DbError::Constraint(text)) => assert_eq!(text, "Market is not open for betting"),
        other => panic!("unexpected: {:?}", other),
    }
}

#[test]
fn resolution_pays_the_winners_and_freezes_the_bet() {
    let mut service = open_market();
    service
        .create_bet_with(1, 11, 12, "d".to_string(), "1:1".to_string(), 100, false, 100, 200, 2000)
        .unwrap();
    service.place_wager_with(100, 10, Side::No, 200, 201, 2001).unwrap();
    let payouts = service.resolve_bet_with(100, 10, Side::Yes, 3000).unwrap();
    assert_eq!(payouts, vec![(11, 300)]);
    let bet = service.get_bet(100).unwrap();
    assert_eq!(bet.status, BetStatus::ResolvedYes);
    assert_eq!(bet.resolved_at, Some(3000));
    assert_eq!((bet.yes_pool, bet.no_pool), (100, 200));
    assert_eq!(service.get_user(11).unwrap().balance, 1200);
    assert_eq!(service.get_user(10).unwrap().balance, 800);
    // Resolved once and for all.
    match service.resolve_bet_with(100, 10, Side::No, 4000) {
        Err(DbError::Constraint(text)) => assert_eq!(text, "Bet already resolved"),
        other => panic!("unexpected: {:?}", other),
    }
    match service.place_wager_with(100, 10, Side::No, 1, 202, 4000) {
        Err(DbError::Constraint(text)) => assert_eq!(text, "Bet is not active"),
        other => panic!("unexpected: {:?}", other),
    }
    // Approval does not reopen it.
    let approved = service.approve_bet(100, 10).unwrap();
    assert_eq!(approved.status, BetStatus::ResolvedYes);
    assert_eq!(service.get_bet(100).unwrap().resolved_at, Some(3000));
    assert_eq!(service.get_user(11).unwrap().balance, 1200);
}

#[test]
fn resolution_without_winners_pays_nobody() {
    let mut service = open_market();
    service
        .create_bet_with(1, 11, 12, "d".to_string(), "1:1".to_string(), 100, false, 100, 200, 2000)
        .unwrap();
    let payouts = service.resolve_bet_with(100, 10, Side::No, 3000).unwrap();
    assert!(payouts.is_empty());
    assert_eq!(service.get_bet(100).unwrap().status, BetStatus::ResolvedNo);
    assert_eq!(service.get_user(11).unwrap().balance, 900);
}

#[test]
fn resolution_fails_before_it_writes() {
    let mut service = open_market();
    service
        .create_bet_with(1, 11, 12, "d".to_string(), "1:1".to_string(), 100, false, 100, 200, 2000)
        .unwrap();
    // The winner's balance cannot take the payout.
    let mut store = service.into_database();
    store.update_user_balance(11, i64::MAX).unwrap();
    let mut service = CazinoService::new(store);
    assert!(matches!(
        service.resolve_bet_with(100, 10, Side::Yes, 3000),
        Err(DbError::Internal(_))
    ));
    assert_eq!(service.get_bet(100).unwrap().status, BetStatus::Active);
    assert_eq!(service.get_bet(100).unwrap().resolved_at, None);
    // The pools do not cover the wagers.
    let mut store = service.into_database();
    store.update_user_balance(11, 0).unwrap();
    store.update_bet_pools(100, 50, 0).unwrap();
    let mut service = CazinoService::new(store);
    assert!(matches!(
        service.resolve_bet_with(100, 10, Side::Yes, 3000),
        Err(DbError::Internal(_))
    ));
    assert_eq!(service.get_bet(100).unwrap().status, BetStatus::Active);
    assert_eq!(service.get_user(11).unwrap().balance, 0);
    assert_eq!(credited_balance(&service.get_user(10).unwrap(), 5), Some(1005));
}

#[test]
fn markets_only_move_forward() {
    let mut service = CazinoService::new(MemoryDatabase::new());
    service
        .create_market_with(params("Party", "admin-device", None), 1, 10, "PARTY2".to_string(), 1000)
        .unwrap();
    service
        .join_market_with("PARTY2".to_string(), "a".to_string(), "alice".to_string(), "🙂".to_string(), 11, 1001)
        .unwrap();
    // Only admins.
    for result in [service.open_market(1, 11), service.close_market(1, 11), service.resolve_market(1, 11)] {
        match result {
            Err(DbError::Constraint(text)) => assert_eq!(text, "Admin only"),
            other => panic!("unexpected: {:?}", other),
        }
    }
    assert_eq!(service.get_market(1).unwrap().status, MarketStatus::Draft);
    service.open_market(1, 10).unwrap();
    service.open_market(1, 10).unwrap();
    assert_eq!(service.get_market(1).unwrap().status, MarketStatus::Open);
    service.close_market(1, 10).unwrap();
    assert_eq!(service.get_market(1).unwrap().status, MarketStatus::Closed);
    match service.open_market(1, 10) {
        Err(DbError::Constraint(text)) => {
            assert_eq!(text, "Market not in correct status for this action")
        }
        other => panic!("unexpected: {:?}", other),
    }
    assert_eq!(service.get_market(1).unwrap().status, MarketStatus::Closed);
    service.resolve_market(1, 10).unwrap();
    assert_eq!(service.get_market(1).unwrap().status, MarketStatus::Resolved);
    assert!(matches!(service.close_market(1, 10), Err(DbError::Constraint(_))));
    assert!(matches!(service.open_market(1, 10), Err(DbError::Constraint(_))));
    assert_eq!(service.get_market(1).unwrap().status, MarketStatus::Resolved);
}

#[test]
fn approval_moves_a_pending_bet_to_active() {
    let mut service = open_market();
    service
        .create_bet_with(1, 11, 12, "d".to_string(), "1:1".to_string(), 100, false, 100, 200, 2000)
        .unwrap();
    let mut store = service.into_database();
    store.update_bet_status(100, BetStatus::Pending, 0).unwrap();
    let mut service = CazinoService::new(store);
    assert_eq!(service.get_pending_bets(1).unwrap().len(), 1);
    match service.approve_bet(100, 11) {
        Err(DbError::Constraint(text)) => assert_eq!(text, "Only admin can perform this action"),
        other => panic!("unexpected: {:?}", other),
    }
    let approved = service.approve_bet(100, 10).unwrap();
    assert_eq!(approved.status, BetStatus::Active);
    assert_eq!(service.get_bet(100).unwrap().status, BetStatus::Active);
    assert!(service.get_pending_bets(1).unwrap().is_empty());
    // Approving again changes nothing.
    assert_eq!(service.approve_bet(100, 10).unwrap().status, BetStatus::Active);
}

#[test]
fn deleting_a_market_removes_all_that_belongs_to_it() {
    let mut service = open_market();
    service
        .create_market_with(params("Other", "admin-device", None), 2, 20, "OTHER2".to_string(), 1000)
        .unwrap();
    service.open_market(2, 20).unwrap();
    service
        .create_bet_with(1, 11, 12, "d".to_string(), "1:1".to_string(), 100, false, 100, 200, 2000)
        .unwrap();
    service
        .create_bet_with(2, 20, 20, "e".to_string(), "1:1".to_string(), 50, false, 101, 203, 2000)
        .unwrap();
    match service.delete_market(1, 11) {
        Err(DbError::Constraint(text)) => assert_eq!(text, "Admin only"),
        other => panic!("unexpected: {:?}", other),
    }
    service.delete_market(1, 10).unwrap();
    assert!(matches!(service.get_market(1), Err(DbError::NotFound(_))));
    assert!(service.get_users(1).unwrap().is_empty());
    assert!(service.get_bet(100).is_err());
    assert!(service.database().get_wagers_for_bet(100).unwrap().is_empty());
    assert_eq!(service.get_market(2).unwrap().name, "Other");
    assert_eq!(service.get_users(2).unwrap().len(), 1);
    assert_eq!(service.get_bet(101).unwrap().yes_pool, 50);
    assert_eq!(service.database().get_wagers_for_bet(101).unwrap().len(), 1);
}

#[test]
fn markets_of_a_device() {
    let mut service = CazinoService::new(MemoryDatabase::new());
    for i in 0..12u128 {
        let code = format!("MARK{}{}", alphabet_char((i / 8) as usize), alphabet_char((24 + i % 8) as usize));
        service
            .create_market_with(params(&format!("Market {}", i), "admin-device", None), 100 + i, 200 + i, code.clone(), 1000 + i as i64)
            .unwrap();
        service
            .join_market_with(code, "my-device".to_string(), "me".to_string(), "🙂".to_string(), 300 + i, 2000 + i as i64)
            .unwrap();
    }
    let mine = service.get_markets_by_device_id("my-device").unwrap();
    assert_eq!(mine.len(), 10);
    // The most recent first.
    assert_eq!(mine[0].0.id, 111);
    assert_eq!(mine[0].1.id, 311);
    assert_eq!(mine[9].0.id, 102);
    for (market, user) in &mine {
        assert_eq!(user.device_id, "my-device");
        assert_eq!(user.market_id, market.id);
    }
    assert!(service.get_markets_by_device_id("no-device").unwrap().is_empty());
}

#[test]
fn a_store_that_is_not_written_yet_fails_every_operation() {
    let mut service = CazinoService::new(D1Database::new(()));
    match service.create_market(params("One", "d1", None)) {
        Err(DbError::Internal(text)) => assert_eq!(text, "D1 not yet implemented"),
        other => panic!("unexpected: {:?}", other),
    }
    assert!(matches!(service.get_market(1), Err(DbError::Internal(_))));
    assert!(matches!(service.get_users(1), Err(DbError::Internal(_))));
    assert!(matches!(service.open_market(1, 2), Err(DbError::Internal(_))));
    assert!(matches!(service.place_wager(1, 2, Side::Yes, 3), Err(DbError::Internal(_))));
    assert!(matches!(service.resolve_bet(1, 2, Side::Yes), Err(DbError::Internal(_))));
    assert!(matches!(
        service.join_market("AAAAAA".to_string(), "d".to_string(), "n".to_string(), "a".to_string()),
        Err(DbError::Internal(_))
    ));
    let store = service.into_database();
    assert_eq!(store.into_inner(), ());
    let store = D1Database::new("binding".to_string());
    assert!(matches!(store.get_bet(7), Err(DbError::Internal(_))));
    assert_eq!(store.into_inner(), "binding");
}

#[test]
fn chart_points_follow_the_wagers() {
    let mut service = open_market();
    service
        .create_bet_with(1, 11, 12, "d".to_string(), "1:1".to_string(), 100, false, 100, 200, 2000)
        .unwrap();
    service.place_wager_with(100, 10, Side::No, 100, 201, 2001).unwrap();
    let chart = service.get_probability_chart(100).unwrap();
    assert_eq!(chart.len(), 2);
    assert_eq!(chart[0].timestamp, 2000);
    assert_eq!(chart[0].yes_probability, Probability { numerator: 100, denominator: 100 });
    assert_eq!(chart[1].timestamp, 2001);
    assert_eq!(chart[1].yes_probability, Probability { numerator: 100, denominator: 200 });
    assert!(probability_chart(&[]).is_empty());
    assert!(service.get_probability_chart(999).unwrap().is_empty());
}

#[test]
fn error_messages() {
    assert_eq!(DbError::NotFound("Market not found".to_string()).message(), "Not found: Market not found");
    assert_eq!(DbError::Internal("disk full".to_string()).message(), "Database error: disk full");
    assert_eq!(
        DbError::Constraint("Admin only".to_string()).message(),
        "Constraint violation: Admin only"
    );
}

#[test]
fn leaderboard_and_reveal_of_a_market() {
    let mut service = open_market();
    service
        .create_bet_with(1, 11, 12, "Bob will sing".to_string(), "1:1".to_string(), 100, true, 100, 200, 2000)
        .unwrap();
    service.place_wager_with(100, 10, Side::No, 100, 201, 2001).unwrap();
    // Admin and alice both hold 900 now, bob 1000.
    let board = service.get_leaderboard(1).unwrap();
    let rows: Vec<(u128, i64, i64, usize)> =
        board.users.iter().map(|e| (e.user.id, e.user.balance, e.profit, e.rank)).collect();
    assert_eq!(rows, vec![(12, 1000, 0, 1), (10, 900, -100, 2), (11, 900, -100, 3)]);
    assert!(matches!(service.get_leaderboard(7), Err(DbError::NotFound(_))));

    // Bob does not see what the bet about him says, until it is revealed.
    let views = service.get_bets(1, 12).unwrap();
    assert!(views[0].is_hidden);
    let views = service.get_reveal(12).unwrap();
    assert_eq!(views.len(), 1);
    assert!(!views[0].is_hidden);
    assert_eq!(views[0].subject_user_id, Some(12));
    assert_eq!(views[0].description, Some("Bob will sing".to_string()));
    assert!(service.get_reveal(11).unwrap().is_empty());
}

/// Checks on a store what the service keeps true of it: no balance is
/// negative, and the pools of every bet hold what was wagered on it.
fn check_books(service: &CazinoService<MemoryDatabase>, market_id: u128) {
    for user in service.get_users(market_id).unwrap() {
        assert!(user.balance >= 0);
    }
    for view in service.get_bets(market_id, 0).unwrap() {
        let wagers = service.database().get_wagers_for_bet(view.id).unwrap();
        let yes: i64 = wagers.iter().filter(|w| w.side == Side::Yes).map(|w| w.amount).sum();
        let no: i64 = wagers.iter().filter(|w| w.side == Side::No).map(|w| w.amount).sum();
        assert_eq!((view.yes_pool, view.no_pool), (yes, no));
        let last = wagers.last().unwrap();
        assert_eq!((last.yes_pool_after, last.no_pool_after), (yes, no));
        for wager in &wagers {
            assert!(wager.amount > 0);
        }
    }
}

#[test]
fn the_books_stay_in_order() {
    let mut service = open_market();
    let users = [10u128, 11, 12];
    let mut state: u64 = 0x2545F4914F6CDD1D;
    let mut next = move |bound: u64| {
        state ^= state << 13;
        state ^= state >> 7;
        state ^= state << 17;
        state % bound
    };
    let mut coins_in_open_pools: i64 = 0;
    let mut paid_in: i64 = 0;
    let mut paid_out: i64 = 0;
    for step in 0..400u128 {
        let user = users[next(3) as usize];
        let bet_id = 1000 + next(12) as u128;
        let amount = next(400) as i64 - 50;
        match next(4) {
            0 => {
                let subject = users[next(3) as usize];
                if service
                    .create_bet_with(1, user, subject, "d".to_string(), "2:1".to_string(), amount, false, bet_id, 5000 + step, step as i64)
                    .is_ok()
                {
                    coins_in_open_pools += amount;
                    paid_in += amount;
                }
            }
            1 | 2 => {
                let side = if next(2) == 0 { Side::Yes } else { Side::No };
                if service.place_wager_with(bet_id, user, side, amount, 5000 + step, step as i64).is_ok() {
                    coins_in_open_pools += amount;
                    paid_in += amount;
                }
            }
            _ => {
                let outcome = if next(2) == 0 { Side::Yes } else { Side::No };
                if let Ok(bet) = service.get_bet(bet_id) {
                    if let Ok(payouts) = service.resolve_bet_with(bet_id, 10, outcome, step as i64) {
                        let total = bet.yes_pool + bet.no_pool;
                        let sum: i64 = payouts.iter().map(|p| p.1).sum();
                        let winning = if outcome == Side::Yes { bet.yes_pool } else { bet.no_pool };
                        assert!(sum <= total);
                        if winning > 0 {
                            assert!(total - sum < payouts.len() as i64);
                        } else {
                            assert!(payouts.is_empty());
                        }
                        coins_in_open_pools -= total;
                        paid_out += sum;
                    }
                }
            }
        }
        check_books(&service, 1);
    }
    assert!(paid_in > 0 && paid_out > 0);
    // Coins are neither made nor lost but to rounding and to pools without winners.
    let held: i64 = service.get_users(1).unwrap().iter().map(|u| u.balance).sum();
    assert_eq!(held, 3000 - paid_in + paid_out);
    assert!(coins_in_open_pools >= 0);
}
