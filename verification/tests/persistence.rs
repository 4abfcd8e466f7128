use cascade_protocol::{CascadeProtocolError, Market, MarketCategory, MarketStatus, Outcome};

fn sample() -> Market {
    Market {
        id: "test_1".to_string(),
        question: "Will BTC reach $100k?".to_string(),
        outcomes: vec![
            Outcome { id: "test_1_0".to_string(), name: "Yes".to_string(), total_staked: 1000 },
            Outcome { id: "test_1_1".to_string(), name: "No".to_string(), total_staked: 2000 },
        ],
        total_staked: 3000,
        status: MarketStatus::Active,
        expiry_time: 1234567890,
        winning_outcome_id: None,
        parent_id: None,
        category: MarketCategory::Crypto,
    }
}

#[test]
fn test_market_serialization() {
    let market = sample();

    let serialized = market.to_bytes().unwrap();
    let deserialized: Market = Market::from_bytes(&serialized).unwrap();

    assert_eq!(market.id, deserialized.id);
    assert_eq!(market.question, deserialized.question);
    assert_eq!(market.outcomes.len(), deserialized.outcomes.len());
}

#[test]
fn stored_market_keeps_every_field() {
    let mut market = sample();
    market.status = MarketStatus::Resolved;
    market.winning_outcome_id = Some("test_1_1".to_string());
    market.parent_id = Some("test_0".to_string());
    market.category = MarketCategory::Sports;
    market.question = "Größe ≠ 0?".to_string();
    let read = Market::from_bytes(&market.to_bytes().unwrap()).unwrap();
    assert_eq!(read.id, market.id);
    assert_eq!(read.question, market.question);
    assert_eq!(read.outcomes.len(), 2);
    for (a, b) in read.outcomes.iter().zip(market.outcomes.iter()) {
        assert_eq!(a.id, b.id);
        assert_eq!(a.name, b.name);
        assert_eq!(a.total_staked, b.total_staked);
    }
    assert_eq!(read.total_staked, 3000);
    assert_eq!(read.status, MarketStatus::Resolved);
    assert_eq!(read.expiry_time, 1234567890);
    assert_eq!(read.winning_outcome_id, Some("test_1_1".to_string()));
    assert_eq!(read.parent_id, Some("test_0".to_string()));
    assert_eq!(read.category, MarketCategory::Sports);
}

#[test]
fn stored_form_is_the_fields_in_order() {
    let market = Market {
        id: "m".to_string(),
        question: "q?".to_string(),
        outcomes: vec![
            Outcome { id: "a".to_string(), name: "A".to_string(), total_staked: 1 },
            Outcome { id: "b".to_string(), name: "BB".to_string(), total_staked: 258 },
        ],
        total_staked: 259,
        status: MarketStatus::Expired,
        expiry_time: u64::MAX,
        winning_outcome_id: None,
        parent_id: Some("p".to_string()),
        category: MarketCategory::Other,
    };
    let expected: Vec<u8> = vec![
        1, b'm', // id
        2, b'q', b'?', // question
        2, // two outcomes
        1, b'a', 1, b'A', 1, 0, 0, 0, 0, 0, 0, 0, //
        1, b'b', 2, b'B', b'B', 2, 1, 0, 0, 0, 0, 0, 0, //
        3, 1, 0, 0, 0, 0, 0, 0, // total
        2, // expired
        255, 255, 255, 255, 255, 255, 255, 255, // expiry
        0, // no winner
        1, 1, b'p', // parent
        5, // other
    ];
    assert_eq!(market.to_bytes().unwrap(), expected);
}

#[test]
fn every_status_and_category_is_read_back() {
    let statuses = [MarketStatus::Active, MarketStatus::Resolved, MarketStatus::Expired];
    let categories = [
        MarketCategory::Crypto,
        MarketCategory::Politics,
        MarketCategory::Economics,
        MarketCategory::Tech,
        MarketCategory::Sports,
        MarketCategory::Other,
    ];
    for (n, status) in statuses.iter().enumerate() {
        assert_eq!(status.number() as usize, n);
        assert_eq!(MarketStatus::of_number(n as u8), Some(*status));
        let mut market = sample();
        market.status = *status;
        assert_eq!(Market::from_bytes(&market.to_bytes().unwrap()).unwrap().status, *status);
    }
    for (n, category) in categories.iter().enumerate() {
        assert_eq!(category.number() as usize, n);
        assert_eq!(MarketCategory::of_number(n as u8), Some(*category));
        let mut market = sample();
        market.category = *category;
        assert_eq!(Market::from_bytes(&market.to_bytes().unwrap()).unwrap().category, *category);
    }
    assert_eq!(MarketStatus::of_number(3), None);
    assert_eq!(MarketCategory::of_number(6), None);
}

#[test]
fn malformed_bytes_are_refused() {
    let bytes = sample().to_bytes().unwrap();
    let truncated = &bytes[..bytes.len() - 1];
    assert!(matches!(Market::from_bytes(truncated), Err(CascadeProtocolError::BcsError(_))));
    let mut longer = bytes.clone();
    longer.push(0);
    assert!(matches!(Market::from_bytes(&longer), Err(CascadeProtocolError::BcsError(_))));
    assert!(matches!(Market::from_bytes(&[]), Err(CascadeProtocolError::BcsError(_))));
}

#[test]
fn unknown_variant_numbers_are_refused() {
    let bytes = sample().to_bytes().unwrap();
    let mut bad_category = bytes.clone();
    let last = bad_category.len() - 1;
    bad_category[last] = 6;
    assert!(matches!(Market::from_bytes(&bad_category), Err(CascadeProtocolError::BcsError(_))));
    // The status stands before the expiry time, the two optional texts and the category.
    let mut bad_status = bytes.clone();
    let at = bytes.len() - 1 - 2 - 8 - 1;
    assert_eq!(bad_status[at], 0);
    bad_status[at] = 3;
    assert!(matches!(Market::from_bytes(&bad_status), Err(CascadeProtocolError::BcsError(_))));
}

#[test]
fn record_and_market_convert_both_ways() {
    let market = sample();
    let record = market.to_record();
    assert_eq!(record.0, "test_1");
    assert_eq!(record.2.len(), 2);
    assert_eq!(record.2[1], ("test_1_1".to_string(), "No".to_string(), 2000));
    assert_eq!(record.4, 0);
    assert_eq!(record.8, 0);
    let back = Market::from_record(record).unwrap();
    assert_eq!(back.outcomes[0].name, "Yes");
    assert_eq!(back.total_staked, 3000);
    let mut unknown = market.to_record();
    unknown.4 = 9;
    assert!(Market::from_record(unknown).is_none());
}
