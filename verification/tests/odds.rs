use cascade_protocol::{Market, MarketCategory, MarketStatus, Outcome};

fn two_outcome_market() -> Market {
    Market {
        id: "test_1".to_string(),
        question: "Test market".to_string(),
        outcomes: vec![
            Outcome { id: "test_1_0".to_string(), name: "Outcome A".to_string(), total_staked: 1000 },
            Outcome { id: "test_1_1".to_string(), name: "Outcome B".to_string(), total_staked: 3000 },
        ],
        total_staked: 4000,
        status: MarketStatus::Active,
        expiry_time: 1234567890,
        winning_outcome_id: None,
        parent_id: None,
        category: MarketCategory::Other,
    }
}

fn as_float(odds: (u64, u64)) -> f64 {
    odds.0 as f64 / odds.1 as f64
}

#[test]
fn test_odds_calculation() {
    let market = two_outcome_market();

    let odds_a = as_float(market.calculate_odds("test_1_0"));
    assert!((odds_a - 4.0).abs() < 0.01);

    let odds_b = as_float(market.calculate_odds("test_1_1"));
    assert!((odds_b - 1.333).abs() < 0.01);
}

#[test]
fn odds_are_the_pool_over_the_stake() {
    let market = two_outcome_market();
    assert_eq!(market.calculate_odds("test_1_0"), (4000, 1000));
    assert_eq!(market.calculate_odds("test_1_1"), (4000, 3000));
}

#[test]
fn odds_of_an_unknown_outcome_are_zero() {
    let market = two_outcome_market();
    assert_eq!(market.calculate_odds("test_1_2"), (0, 1));
    assert_eq!(as_float(market.calculate_odds("nothing")), 0.0);
}

#[test]
fn odds_of_an_outcome_without_stake_are_zero() {
    let mut market = two_outcome_market();
    market.outcomes[0].total_staked = 0;
    market.total_staked = 3000;
    assert_eq!(market.calculate_odds("test_1_0"), (0, 1));
}
