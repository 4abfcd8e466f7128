use cascade_protocol::text::{decimal_string, id_string, outcome_id_string};
use cascade_protocol::{
    CascadeProtocol, CascadeProtocolContract, ContractRuntime, InstantiationArgument, Market,
    MarketCategory, MarketStatus, Operation, Outcome, Owner,
};

fn contract_with_stakes(total: u64, first: u64, second: u64) -> CascadeProtocolContract {
    let market = Market {
        id: "id_1".to_string(),
        question: "q".to_string(),
        outcomes: vec![
            Outcome { id: "id_1_0".to_string(), name: "a".to_string(), total_staked: first },
            Outcome { id: "id_1_1".to_string(), name: "b".to_string(), total_staked: second },
        ],
        total_staked: total,
        status: MarketStatus::Active,
        expiry_time: 100,
        winning_outcome_id: None,
        parent_id: None,
        category: MarketCategory::Economics,
    };
    let mut contract = CascadeProtocolContract {
        state: CascadeProtocol::new(),
        runtime: ContractRuntime {
            authenticated_signer: Some(Owner([7; 32])),
            system_time: 1,
            transfers: Vec::new(),
        },
    };
    contract.instantiate(InstantiationArgument { admin: Owner([1; 32]) });
    contract.state.id_counter = 1;
    contract.state.add_market(market);
    contract
}

fn bet_of(amount: u64) -> Operation {
    Operation::PlaceBet {
        market_id: "id_1".to_string(),
        outcome_id: "id_1_0".to_string(),
        amount,
    }
}

#[test]
fn decimal_numerals() {
    assert_eq!(decimal_string(0), "0");
    assert_eq!(decimal_string(7), "7");
    assert_eq!(decimal_string(10), "10");
    assert_eq!(decimal_string(1234567890), "1234567890");
    assert_eq!(decimal_string(u64::MAX), "18446744073709551615");
}

#[test]
fn identifier_texts() {
    assert_eq!(id_string(1), "id_1");
    assert_eq!(id_string(100), "id_100");
    assert_eq!(outcome_id_string(&"id_3".to_string(), 0), "id_3_0");
    assert_eq!(outcome_id_string(&"id_3".to_string(), 21), "id_3_21");
}

#[test]
fn a_stake_that_fits_has_room() {
    let contract = contract_with_stakes(30, 10, 20);
    assert!(contract.has_room_for(&bet_of(1)));
    assert!(contract.has_room_for(&bet_of(u64::MAX - 30)));
    assert!(!contract.has_room_for(&bet_of(u64::MAX - 29)));
}

#[test]
fn the_largest_stake_can_be_reached() {
    let mut contract = contract_with_stakes(30, 10, 20);
    contract.place_bet("id_1".to_string(), "id_1_0".to_string(), u64::MAX - 30).unwrap();
    let market = contract.state.market("id_1".to_string()).unwrap();
    assert_eq!(market.total_staked, u64::MAX);
    assert_eq!(market.outcomes[0].total_staked, u64::MAX - 20);
    assert!(!contract.has_room_for(&bet_of(1)));
}

#[test]
fn a_counter_at_its_end_has_no_room() {
    let mut contract = contract_with_stakes(30, 10, 20);
    contract.state.id_counter = u64::MAX;
    assert!(!contract.has_room_for(&bet_of(1)));
    let create = Operation::CreateMarket {
        question: "q".to_string(),
        outcome_names: vec!["a".to_string(), "b".to_string()],
        expiry_time: 9,
        category: MarketCategory::Tech,
        parent_id: None,
    };
    assert!(!contract.has_room_for(&create));
    assert!(contract.has_room_for(&Operation::ClaimWinnings { market_id: "id_1".to_string() }));
    assert!(contract.has_room_for(&Operation::ResolveMarket {
        market_id: "id_1".to_string(),
        winning_outcome_id: "id_1_0".to_string(),
    }));
}

#[test]
fn unknown_targets_need_no_room_for_a_stake() {
    let contract = contract_with_stakes(u64::MAX, u64::MAX, 0);
    let elsewhere = Operation::PlaceBet {
        market_id: "id_9".to_string(),
        outcome_id: "id_1_0".to_string(),
        amount: 5,
    };
    assert!(contract.has_room_for(&elsewhere));
    assert!(!contract.has_room_for(&bet_of(5)));
}

#[test]
fn finders_give_the_first_position() {
    let contract = contract_with_stakes(30, 10, 20);
    assert_eq!(contract.state.find_market(&"id_1".to_string()), Some(0));
    assert_eq!(contract.state.find_market(&"id_2".to_string()), None);
    let market = contract.state.market("id_1".to_string()).unwrap();
    assert_eq!(market.find_outcome(&"id_1_1".to_string()), Some(1));
    assert_eq!(market.find_outcome(&"id_1_2".to_string()), None);
    assert_eq!(market.payout(5, 0), 15);
    assert_eq!(market.payout(5, 1), 7);
}
