use cazino::domain::models::{Bet, BetStatus, Probability, Side, Wager};
use cazino::domain::odds::is_odds_label;
use cazino::domain::parimutuel::{
    calculate_payouts, calculate_potential_payout, calculate_probability, is_settleable,
    parse_initial_odds,
};

fn as_float(p: Probability) -> f64 {
    p.numerator as f64 / p.denominator as f64
}

fn bet(status: BetStatus, yes_pool: i64, no_pool: i64) -> Bet {
    Bet {
        id: 1,
        market_id: 2,
        subject_user_id: 3,
        created_by: 4,
        description: "Test bet".to_string(),
        initial_odds: "1:1".to_string(),
        status,
        yes_pool,
        no_pool,
        hide_from_subject: false,
        created_at: 0,
        resolved_at: None,
    }
}

fn wager(id: u128, user_id: u128, side: Side, amount: i64) -> Wager {
    Wager {
        id,
        bet_id: 1,
        user_id,
        side,
        amount,
        placed_at: 0,
        yes_pool_after: 0,
        no_pool_after: 0,
        probability_after: Probability { numerator: 1, denominator: 2 },
    }
}

#[test]
fn test_calculate_probability() {
    assert_eq!(as_float(calculate_probability(100, 100)), 0.5);
    assert_eq!(as_float(calculate_probability(300, 200)), 0.6);
    assert_eq!(as_float(calculate_probability(0, 0)), 0.5);
    assert_eq!(as_float(calculate_probability(100, 0)), 1.0);
}

#[test]
fn test_potential_payout() {
    // Starting pool: 100 YES, 100 NO (total 200); bet 50 on YES.
    let (yes_pool, no_pool, payout) = calculate_potential_payout(100, 100, Side::Yes, 50);

    assert_eq!(yes_pool, 150);
    assert_eq!(no_pool, 100);
    // Total pool now 250, bettor has 50/150 of the YES pool:
    // (50/150) * 250 = 83.33 -> 83
    assert_eq!(payout, 83);
}

#[test]
fn test_parse_initial_odds() {
    let (yes, no) = parse_initial_odds("1:1", 100).unwrap();
    assert_eq!(yes, 100);
    assert_eq!(no, 0); // Creator seeds YES pool only

    let (yes, no) = parse_initial_odds("3:1", 100).unwrap();
    assert_eq!(yes, 100);
    assert_eq!(no, 0);

    assert!(parse_initial_odds("invalid", 100).is_none());
    assert!(parse_initial_odds("0:1", 100).is_none());
}

#[test]
fn probability_edge_cases() {
    assert_eq!(calculate_probability(0, 0), Probability { numerator: 1, denominator: 2 });
    assert_eq!(as_float(calculate_probability(7, 0)), 1.0);
    assert_eq!(as_float(calculate_probability(0, 7)), 0.0);
    assert_eq!(calculate_probability(100, 200), Probability { numerator: 100, denominator: 300 });
    let p = calculate_probability(i64::MAX, 0);
    assert_eq!(p.numerator, p.denominator);
    for (yes, no) in [(0i64, 0i64), (1, 0), (0, 1), (3, 5), (1_000_000, 1), (i64::MAX - 1, 1)] {
        let p = calculate_probability(yes, no);
        assert!(0 <= p.numerator && p.numerator <= p.denominator && p.denominator > 0);
    }
}

#[test]
fn potential_payout_on_no_and_on_empty_pools() {
    assert_eq!(calculate_potential_payout(100, 0, Side::No, 200), (100, 200, 300));
    assert_eq!(calculate_potential_payout(100, 100, Side::No, 50), (100, 150, 83));
    // The guarded path: nothing is added to an empty pool.
    assert_eq!(calculate_potential_payout(0, 0, Side::Yes, 0), (0, 0, 0));
    assert_eq!(calculate_potential_payout(0, 40, Side::Yes, 0), (0, 40, 0));
    // A lone wager gets the whole pool back.
    assert_eq!(calculate_potential_payout(0, 0, Side::Yes, 10), (10, 0, 10));
    // Exact where floating point would round: 1/49 of 49.
    assert_eq!(calculate_potential_payout(48, 0, Side::Yes, 1), (49, 0, 1));
    // The largest pools that can be represented.
    assert_eq!(
        calculate_potential_payout(0, 0, Side::Yes, i64::MAX),
        (i64::MAX, 0, i64::MAX)
    );
}

#[test]
fn odds_labels() {
    for label in ["1:1", "3:1", "1:3", "10:25", "+3:1", "3:+1", "03:1", "9223372036854775807:1"] {
        assert!(is_odds_label(label), "{}", label);
        assert_eq!(parse_initial_odds(label, 7), Some((7, 0)));
    }
    for label in [
        "", ":", "1", "1:", ":1", "1:2:3", "0:1", "1:0", "00:1", "-3:1", "3:-1", " 1:1", "1:1 ",
        "1 : 1", "a:b", "1.5:1", "+:1", "1:+", "++1:1", "9223372036854775808:1",
        "99999999999999999999:1", "١:١", "1:1é", "invalid",
    ] {
        assert!(!is_odds_label(label), "{}", label);
        assert_eq!(parse_initial_odds(label, 7), None);
    }
}

#[test]
fn payouts_split_the_total_pool() {
    // YES: user 10 staked 100, user 11 staked 200, user 12 staked 100; NO: 100.
    let resolved = bet(BetStatus::ResolvedYes, 400, 100);
    let wagers = vec![
        wager(1, 10, Side::Yes, 100),
        wager(2, 11, Side::Yes, 200),
        wager(3, 12, Side::Yes, 100),
        wager(4, 11, Side::No, 100),
    ];
    assert!(is_settleable(&resolved, &wagers));
    assert_eq!(calculate_payouts(&resolved, &wagers), vec![(10, 125), (11, 250), (12, 125)]);

    let resolved = bet(BetStatus::ResolvedNo, 400, 100);
    assert_eq!(calculate_payouts(&resolved, &wagers), vec![(11, 500)]);
}

#[test]
fn payouts_sum_the_wagers_of_one_user() {
    let resolved = bet(BetStatus::ResolvedYes, 60, 40);
    let wagers = vec![
        wager(1, 10, Side::Yes, 10),
        wager(2, 11, Side::Yes, 30),
        wager(3, 10, Side::No, 40),
        wager(4, 10, Side::Yes, 20),
    ];
    // User 10 staked 30 of 60, user 11 the other 30; listed by first wager.
    assert_eq!(calculate_payouts(&resolved, &wagers), vec![(10, 50), (11, 50)]);
}

#[test]
fn payouts_leave_rounding_dust() {
    // Three winners with one coin each share a pool of 10: 3 each, 1 is lost.
    let resolved = bet(BetStatus::ResolvedYes, 3, 7);
    let wagers = vec![
        wager(1, 10, Side::Yes, 1),
        wager(2, 11, Side::Yes, 1),
        wager(3, 12, Side::Yes, 1),
        wager(4, 13, Side::No, 7),
    ];
    let payouts = calculate_payouts(&resolved, &wagers);
    assert_eq!(payouts, vec![(10, 3), (11, 3), (12, 3)]);
    let sum: i64 = payouts.iter().map(|p| p.1).sum();
    assert!(sum <= 10);
    assert!(10 - sum < payouts.len() as i64);
}

#[test]
fn nothing_is_paid_without_a_resolution_or_without_winners() {
    let wagers = vec![wager(1, 10, Side::Yes, 100)];
    for status in [BetStatus::Pending, BetStatus::Active, BetStatus::Challenged] {
        assert!(calculate_payouts(&bet(status, 100, 0), &wagers).is_empty());
    }
    // Resolved NO with an empty NO pool: the YES coins are handed to nobody.
    assert!(calculate_payouts(&bet(BetStatus::ResolvedNo, 100, 0), &wagers).is_empty());
    assert!(calculate_payouts(&bet(BetStatus::ResolvedYes, 0, 0), &[]).is_empty());
}

#[test]
fn settleable_checks_pools_and_wagers() {
    let wagers = vec![wager(1, 10, Side::Yes, 100), wager(2, 11, Side::No, 50)];
    assert!(is_settleable(&bet(BetStatus::ResolvedYes, 100, 50), &wagers));
    assert!(is_settleable(&bet(BetStatus::ResolvedYes, 150, 0), &wagers));
    // More is wagered on the winning side than its pool holds.
    assert!(!is_settleable(&bet(BetStatus::ResolvedYes, 99, 50), &wagers));
    assert!(!is_settleable(&bet(BetStatus::ResolvedNo, 100, 49), &wagers));
    // An active bet is not held to its pools.
    assert!(is_settleable(&bet(BetStatus::Active, 0, 0), &wagers));
    assert!(!is_settleable(&bet(BetStatus::Active, -1, 0), &wagers));
    assert!(!is_settleable(&bet(BetStatus::Active, i64::MAX, 1), &wagers));
    let negative = vec![wager(1, 10, Side::No, -1)];
    assert!(!is_settleable(&bet(BetStatus::ResolvedYes, 100, 50), &negative));
}
