use cascade_protocol::{
    Account, Bet, CascadeProtocol, CascadeProtocolContract, CascadeProtocolError, ContractRuntime,
    InstantiationArgument, Market, MarketBets, MarketCategory, MarketStatus, Message, Operation,
    Outcome, Owner, OwnerBets, Transfer,
};

fn owner(tag: u8) -> Owner {
    Owner([tag; 32])
}

fn admin() -> Owner {
    owner(1)
}

fn alice() -> Owner {
    owner(2)
}

fn bob() -> Owner {
    owner(3)
}

fn contract_at(time: u64, signer: Option<Owner>) -> CascadeProtocolContract {
    let mut contract = CascadeProtocolContract {
        state: CascadeProtocol::new(),
        runtime: ContractRuntime {
            authenticated_signer: signer,
            system_time: time,
            transfers: Vec::new(),
        },
    };
    contract.instantiate(InstantiationArgument { admin: admin() });
    contract
}

fn names(list: &[&str]) -> Vec<String> {
    list.iter().map(|n| n.to_string()).collect()
}

fn with_market(time: u64) -> CascadeProtocolContract {
    let mut contract = contract_at(time, Some(alice()));
    let id = contract
        .create_market(
            "Will it rain?".to_string(),
            names(&["Yes", "No"]),
            time + 1000,
            MarketCategory::Other,
            None,
        )
        .unwrap();
    assert_eq!(id, "id_1");
    contract
}

fn sum_of_outcomes(market: &Market) -> u64 {
    market.outcomes.iter().map(|o| o.total_staked).sum()
}

#[test]
fn instantiate_sets_admin_and_counter() {
    let contract = contract_at(10, None);
    assert_eq!(contract.state.admin(), Some(admin()));
    assert_eq!(contract.state.id_counter, 0);
    assert!(contract.state.markets().is_empty());
}

#[test]
fn generate_id_counts_from_one() {
    let mut state = CascadeProtocol::new();
    assert_eq!(state.generate_id(), "id_1");
    assert_eq!(state.generate_id(), "id_2");
    assert_eq!(state.id_counter, 2);
    state.id_counter = 9;
    assert_eq!(state.generate_id(), "id_10");
    state.id_counter = 18446744073709551614;
    assert_eq!(state.generate_id(), "id_18446744073709551615");
}

#[test]
fn create_market_builds_outcomes_in_order() {
    let mut contract = contract_at(100, None);
    let id = contract
        .create_market(
            "Who wins?".to_string(),
            names(&["A", "B", "A"]),
            101,
            MarketCategory::Sports,
            Some("id_0".to_string()),
        )
        .unwrap();
    assert_eq!(id, "id_1");
    let market = contract.state.market("id_1".to_string()).unwrap();
    assert_eq!(market.id, "id_1");
    assert_eq!(market.question, "Who wins?");
    assert_eq!(market.outcomes.len(), 3);
    assert_eq!(market.outcomes[0].id, "id_1_0");
    assert_eq!(market.outcomes[1].id, "id_1_1");
    assert_eq!(market.outcomes[2].id, "id_1_2");
    assert_eq!(market.outcomes[0].name, "A");
    assert_eq!(market.outcomes[2].name, "A");
    assert!(market.outcomes.iter().all(|o| o.total_staked == 0));
    assert_eq!(market.total_staked, 0);
    assert_eq!(market.status, MarketStatus::Active);
    assert_eq!(market.expiry_time, 101);
    assert_eq!(market.winning_outcome_id, None);
    assert_eq!(market.parent_id, Some("id_0".to_string()));
    assert_eq!(market.category, MarketCategory::Sports);
    assert!(contract.runtime.transfers.is_empty());
}

#[test]
fn create_market_numbers_outcomes_past_nine() {
    let mut contract = contract_at(0, None);
    let many: Vec<String> = (0..12).map(|i| format!("n{}", i)).collect();
    contract
        .create_market("q".to_string(), many, 5, MarketCategory::Tech, None)
        .unwrap();
    let market = contract.state.market("id_1".to_string()).unwrap();
    assert_eq!(market.outcomes[9].id, "id_1_9");
    assert_eq!(market.outcomes[10].id, "id_1_10");
    assert_eq!(market.outcomes[11].id, "id_1_11");
}

#[test]
fn create_market_refuses_fewer_than_two_outcomes() {
    let mut contract = contract_at(100, None);
    let one = contract.create_market(
        "q".to_string(),
        names(&["only"]),
        200,
        MarketCategory::Other,
        None,
    );
    assert!(matches!(one, Err(CascadeProtocolError::InvalidOutcomeCount)));
    let none =
        contract.create_market("q".to_string(), Vec::new(), 200, MarketCategory::Other, None);
    assert!(matches!(none, Err(CascadeProtocolError::InvalidOutcomeCount)));
    // The count is tested before the expiry time.
    let both =
        contract.create_market("q".to_string(), names(&["only"]), 1, MarketCategory::Other, None);
    assert!(matches!(both, Err(CascadeProtocolError::InvalidOutcomeCount)));
    assert_eq!(contract.state.id_counter, 0);
    assert!(contract.state.markets().is_empty());
}

#[test]
fn create_market_refuses_expiry_that_is_not_in_the_future() {
    let mut contract = contract_at(100, None);
    let now = contract.create_market(
        "q".to_string(),
        names(&["a", "b"]),
        100,
        MarketCategory::Other,
        None,
    );
    assert!(matches!(now, Err(CascadeProtocolError::InvalidExpiryTime)));
    let past =
        contract.create_market("q".to_string(), names(&["a", "b"]), 99, MarketCategory::Other, None);
    assert!(matches!(past, Err(CascadeProtocolError::InvalidExpiryTime)));
    assert_eq!(contract.state.id_counter, 0);
    assert!(contract.state.markets().is_empty());
}

#[test]
fn place_bet_updates_stakes_and_both_indices() {
    let mut contract = with_market(50);
    let bet_id = contract.place_bet("id_1".to_string(), "id_1_0".to_string(), 70).unwrap();
    assert_eq!(bet_id, "id_2");
    let market = contract.state.market("id_1".to_string()).unwrap();
    assert_eq!(market.outcomes[0].total_staked, 70);
    assert_eq!(market.outcomes[1].total_staked, 0);
    assert_eq!(market.total_staked, 70);
    assert_eq!(
        contract.runtime.transfers,
        vec![Transfer { source: None, destination: Account::Escrow, amount: 70 }]
    );
    let by_owner = contract.state.bets_for_owner(alice());
    let by_market = contract.state.bets_for_market("id_1".to_string());
    assert_eq!(by_owner.len(), 1);
    assert_eq!(by_market.len(), 1);
    for bet in [&by_owner[0], &by_market[0]] {
        assert_eq!(bet.id, "id_2");
        assert_eq!(bet.owner, alice());
        assert_eq!(bet.market_id, "id_1");
        assert_eq!(bet.outcome_id, "id_1_0");
        assert_eq!(bet.amount, 70);
        assert!(!bet.claimed);
    }
    assert!(contract.state.bets_for_owner(bob()).is_empty());
    assert!(contract.state.bets_for_market("id_2".to_string()).is_empty());
}

#[test]
fn bets_on_one_outcome_add_up() {
    let mut contract = with_market(50);
    let amounts = [5u64, 11, 1, 300];
    for (n, amount) in amounts.iter().enumerate() {
        contract.runtime.authenticated_signer = Some(if n % 2 == 0 { alice() } else { bob() });
        contract.place_bet("id_1".to_string(), "id_1_1".to_string(), *amount).unwrap();
    }
    contract.runtime.authenticated_signer = Some(bob());
    contract.place_bet("id_1".to_string(), "id_1_0".to_string(), 1000).unwrap();
    let market = contract.state.market("id_1".to_string()).unwrap();
    assert_eq!(market.outcomes[1].total_staked, 317);
    assert_eq!(market.outcomes[0].total_staked, 1000);
    assert_eq!(market.total_staked, 1317);
    assert_eq!(market.total_staked, sum_of_outcomes(&market));
    assert_eq!(contract.state.bets_for_owner(alice()).len(), 2);
    assert_eq!(contract.state.bets_for_owner(bob()).len(), 3);
    assert_eq!(contract.state.bets_for_market("id_1".to_string()).len(), 5);
    assert_eq!(contract.state.id_counter, 6);
}

#[test]
fn markets_and_bets_share_one_counter() {
    let mut contract = with_market(50);
    assert_eq!(
        contract.place_bet("id_1".to_string(), "id_1_0".to_string(), 1).unwrap(),
        "id_2"
    );
    let second = contract
        .create_market("q".to_string(), names(&["a", "b"]), 60, MarketCategory::Crypto, None)
        .unwrap();
    assert_eq!(second, "id_3");
    assert_eq!(
        contract.place_bet("id_3".to_string(), "id_3_1".to_string(), 1).unwrap(),
        "id_4"
    );
    let all = contract.state.markets();
    assert_eq!(all.len(), 2);
    assert_eq!(all[0].id, "id_1");
    assert_eq!(all[1].id, "id_3");
}

#[test]
fn place_bet_refuses_zero_whatever_the_state() {
    let mut contract = with_market(50);
    let known = contract.place_bet("id_1".to_string(), "id_1_0".to_string(), 0);
    assert!(matches!(known, Err(CascadeProtocolError::InvalidBetAmount)));
    let unknown = contract.place_bet("nope".to_string(), "nope".to_string(), 0);
    assert!(matches!(unknown, Err(CascadeProtocolError::InvalidBetAmount)));
    contract.runtime.authenticated_signer = None;
    let anonymous = contract.place_bet("id_1".to_string(), "id_1_0".to_string(), 0);
    assert!(matches!(anonymous, Err(CascadeProtocolError::InvalidBetAmount)));
}

#[test]
fn place_bet_refuses_unknown_caller() {
    let mut contract = with_market(50);
    contract.runtime.authenticated_signer = None;
    let result = contract.place_bet("id_1".to_string(), "id_1_0".to_string(), 5);
    assert!(matches!(result, Err(CascadeProtocolError::Unauthorized)));
}

#[test]
fn place_bet_refuses_unknown_market_and_outcome() {
    let mut contract = with_market(50);
    match contract.place_bet("id_9".to_string(), "id_1_0".to_string(), 5) {
        Err(CascadeProtocolError::MarketNotFound(id)) => assert_eq!(id, "id_9"),
        other => panic!("unexpected: {:?}", other),
    }
    match contract.place_bet("id_1".to_string(), "id_1_7".to_string(), 5) {
        Err(CascadeProtocolError::OutcomeNotFound(id)) => assert_eq!(id, "id_1_7"),
        other => panic!("unexpected: {:?}", other),
    }
    let market = contract.state.market("id_1".to_string()).unwrap();
    assert_eq!(market.total_staked, 0);
    assert_eq!(contract.state.id_counter, 1);
    assert!(contract.runtime.transfers.is_empty());
}

#[test]
fn place_bet_refuses_expired_market_that_is_still_active() {
    let mut contract = with_market(50);
    contract.runtime.system_time = 1050;
    let at_expiry = contract.place_bet("id_1".to_string(), "id_1_0".to_string(), 5);
    assert!(matches!(at_expiry, Err(CascadeProtocolError::MarketExpired)));
    contract.runtime.system_time = 2000;
    let after = contract.place_bet("id_1".to_string(), "id_1_0".to_string(), 5);
    assert!(matches!(after, Err(CascadeProtocolError::MarketExpired)));
    let market = contract.state.market("id_1".to_string()).unwrap();
    assert_eq!(market.status, MarketStatus::Active);
    contract.runtime.system_time = 1049;
    assert!(contract.place_bet("id_1".to_string(), "id_1_0".to_string(), 5).is_ok());
}

#[test]
fn place_bet_refuses_resolved_market() {
    let mut contract = with_market(50);
    contract.runtime.authenticated_signer = Some(admin());
    contract.resolve_market("id_1".to_string(), "id_1_0".to_string()).unwrap();
    let result = contract.place_bet("id_1".to_string(), "id_1_0".to_string(), 5);
    assert!(matches!(result, Err(CascadeProtocolError::MarketNotActive)));
}

#[test]
fn resolve_market_sets_status_and_winner() {
    let mut contract = with_market(50);
    contract.runtime.authenticated_signer = Some(admin());
    contract.resolve_market("id_1".to_string(), "id_1_1".to_string()).unwrap();
    let market = contract.state.market("id_1".to_string()).unwrap();
    assert_eq!(market.status, MarketStatus::Resolved);
    assert_eq!(market.winning_outcome_id, Some("id_1_1".to_string()));
    assert_eq!(market.outcomes.len(), 2);
    let again = contract.resolve_market("id_1".to_string(), "id_1_0".to_string());
    assert!(matches!(again, Err(CascadeProtocolError::MarketNotActive)));
    let market = contract.state.market("id_1".to_string()).unwrap();
    assert_eq!(market.winning_outcome_id, Some("id_1_1".to_string()));
}

#[test]
fn resolve_market_is_for_the_admin_only() {
    let mut contract = with_market(50);
    let by_alice = contract.resolve_market("id_1".to_string(), "id_1_0".to_string());
    assert!(matches!(by_alice, Err(CascadeProtocolError::Unauthorized)));
    contract.runtime.authenticated_signer = None;
    let by_nobody = contract.resolve_market("id_1".to_string(), "id_1_0".to_string());
    assert!(matches!(by_nobody, Err(CascadeProtocolError::Unauthorized)));
    // Authorization is tested before the market is looked up.
    contract.runtime.authenticated_signer = Some(bob());
    let unknown = contract.resolve_market("id_9".to_string(), "id_1_0".to_string());
    assert!(matches!(unknown, Err(CascadeProtocolError::Unauthorized)));
    let market = contract.state.market("id_1".to_string()).unwrap();
    assert_eq!(market.status, MarketStatus::Active);
    assert_eq!(market.winning_outcome_id, None);
}

#[test]
fn resolve_market_refuses_unknown_market_and_outcome() {
    let mut contract = with_market(50);
    contract.runtime.authenticated_signer = Some(admin());
    match contract.resolve_market("id_5".to_string(), "id_1_0".to_string()) {
        Err(CascadeProtocolError::MarketNotFound(id)) => assert_eq!(id, "id_5"),
        other => panic!("unexpected: {:?}", other),
    }
    match contract.resolve_market("id_1".to_string(), "id_1_2".to_string()) {
        Err(CascadeProtocolError::OutcomeNotFound(id)) => assert_eq!(id, "id_1_2"),
        other => panic!("unexpected: {:?}", other),
    }
    let market = contract.state.market("id_1".to_string()).unwrap();
    assert_eq!(market.status, MarketStatus::Active);
}

fn bet(id: &str, who: Owner, outcome: &str, amount: u64) -> Bet {
    Bet {
        id: id.to_string(),
        owner: who,
        market_id: "id_1".to_string(),
        outcome_id: outcome.to_string(),
        amount,
        claimed: false,
    }
}

/// A resolved market with 1000 staked on the winner A and 3000 on B, and a single bet of
/// 100 on A, by alice.
fn resolved_with_one_bet() -> CascadeProtocolContract {
    let market = Market {
        id: "id_1".to_string(),
        question: "A or B?".to_string(),
        outcomes: vec![
            Outcome { id: "id_1_0".to_string(), name: "A".to_string(), total_staked: 1000 },
            Outcome { id: "id_1_1".to_string(), name: "B".to_string(), total_staked: 3000 },
        ],
        total_staked: 4000,
        status: MarketStatus::Resolved,
        expiry_time: 10,
        winning_outcome_id: Some("id_1_0".to_string()),
        parent_id: None,
        category: MarketCategory::Other,
    };
    let mut state = CascadeProtocol::new();
    state.admin = Some(admin());
    state.id_counter = 2;
    state.add_market(market);
    state.add_bet(bet("id_2", alice(), "id_1_0", 100));
    CascadeProtocolContract {
        state,
        runtime: ContractRuntime {
            authenticated_signer: Some(alice()),
            system_time: 20,
            transfers: Vec::new(),
        },
    }
}

#[test]
fn claim_pays_the_share_of_the_pool() {
    let mut contract = resolved_with_one_bet();
    contract.claim_winnings("id_1".to_string()).unwrap();
    assert_eq!(
        contract.runtime.transfers,
        vec![Transfer {
            source: Some(Account::Escrow),
            destination: Account::Owner(alice()),
            amount: 400,
        }]
    );
    let by_owner = contract.state.bets_for_owner(alice());
    let by_market = contract.state.bets_for_market("id_1".to_string());
    assert!(by_owner[0].claimed);
    assert!(by_market[0].claimed);
    assert_eq!(by_owner[0].amount, 100);
    assert_eq!(by_market[0].amount, 100);
    assert_eq!(by_owner[0].id, by_market[0].id);
}

#[test]
fn second_claim_finds_no_bet() {
    let mut contract = resolved_with_one_bet();
    contract.claim_winnings("id_1".to_string()).unwrap();
    let again = contract.claim_winnings("id_1".to_string());
    assert!(matches!(again, Err(CascadeProtocolError::BetNotFound)));
    assert_eq!(contract.runtime.transfers.len(), 1);
}

#[test]
fn claim_on_a_winner_without_stake_is_refused() {
    let mut contract = resolved_with_one_bet();
    contract.state.markets[0].outcomes[0].total_staked = 0;
    contract.state.markets[0].total_staked = 3000;
    let result = contract.claim_winnings("id_1".to_string());
    assert!(matches!(
        result,
        Err(CascadeProtocolError::InsufficientFunds { required: 1, available: 0 })
    ));
    assert!(contract.runtime.transfers.is_empty());
    assert!(!contract.state.bets_for_owner(alice())[0].claimed);
}

#[test]
fn claim_rounds_down() {
    let mut contract = resolved_with_one_bet();
    contract.state.markets[0].outcomes[0].total_staked = 3;
    contract.state.markets[0].outcomes[1].total_staked = 7;
    contract.state.markets[0].total_staked = 10;
    contract.state.bets_by_owner[0].bets[0].amount = 2;
    contract.state.bets_by_market[0].bets[0].amount = 2;
    contract.claim_winnings("id_1".to_string()).unwrap();
    // floor(2 * 10 / 3) = 6
    assert_eq!(contract.runtime.transfers[0].amount, 6);
}

#[test]
fn claim_uses_wide_arithmetic() {
    let mut contract = resolved_with_one_bet();
    let max = u64::MAX;
    contract.state.markets[0].outcomes[0].total_staked = max;
    contract.state.markets[0].outcomes[1].total_staked = 0;
    contract.state.markets[0].total_staked = max;
    contract.state.bets_by_owner[0].bets[0].amount = max;
    contract.state.bets_by_market[0].bets[0].amount = max;
    contract.claim_winnings("id_1".to_string()).unwrap();
    assert_eq!(contract.runtime.transfers[0].amount, max as u128);
}

#[test]
fn claim_settles_one_bet_per_call() {
    let mut contract = resolved_with_one_bet();
    contract.state.id_counter = 4;
    contract.state.add_bet(bet("id_3", alice(), "id_1_1", 50));
    contract.state.add_bet(bet("id_4", alice(), "id_1_0", 10));
    contract.claim_winnings("id_1".to_string()).unwrap();
    let bets = contract.state.bets_for_owner(alice());
    assert!(bets[0].claimed);
    assert!(!bets[1].claimed);
    assert!(!bets[2].claimed);
    contract.claim_winnings("id_1".to_string()).unwrap();
    let bets = contract.state.bets_for_owner(alice());
    assert!(bets[0].claimed);
    assert!(!bets[1].claimed);
    assert!(bets[2].claimed);
    let amounts: Vec<u128> = contract.runtime.transfers.iter().map(|t| t.amount).collect();
    assert_eq!(amounts, vec![400, 40]);
    let third = contract.claim_winnings("id_1".to_string());
    assert!(matches!(third, Err(CascadeProtocolError::BetNotFound)));
    let by_market = contract.state.bets_for_market("id_1".to_string());
    assert_eq!(
        by_market.iter().map(|b| b.claimed).collect::<Vec<bool>>(),
        vec![true, false, true]
    );
}

#[test]
fn claim_refusals() {
    let mut contract = resolved_with_one_bet();
    contract.runtime.authenticated_signer = None;
    let anonymous = contract.claim_winnings("id_1".to_string());
    assert!(matches!(anonymous, Err(CascadeProtocolError::Unauthorized)));
    contract.runtime.authenticated_signer = Some(bob());
    match contract.claim_winnings("id_7".to_string()) {
        Err(CascadeProtocolError::MarketNotFound(id)) => assert_eq!(id, "id_7"),
        other => panic!("unexpected: {:?}", other),
    }
    let no_bet = contract.claim_winnings("id_1".to_string());
    assert!(matches!(no_bet, Err(CascadeProtocolError::BetNotFound)));
}

#[test]
fn claim_on_an_unresolved_market_is_refused() {
    let mut contract = with_market(50);
    contract.place_bet("id_1".to_string(), "id_1_0".to_string(), 5).unwrap();
    let result = contract.claim_winnings("id_1".to_string());
    assert!(matches!(result, Err(CascadeProtocolError::MarketNotResolved)));
    assert_eq!(contract.runtime.transfers.len(), 1);
}

#[test]
fn losing_bet_is_not_found() {
    let mut contract = with_market(50);
    contract.place_bet("id_1".to_string(), "id_1_1".to_string(), 5).unwrap();
    contract.runtime.authenticated_signer = Some(admin());
    contract.resolve_market("id_1".to_string(), "id_1_0".to_string()).unwrap();
    contract.runtime.authenticated_signer = Some(alice());
    let result = contract.claim_winnings("id_1".to_string());
    assert!(matches!(result, Err(CascadeProtocolError::BetNotFound)));
}

#[test]
fn whole_life_of_a_market() {
    let mut contract = with_market(50);
    contract.place_bet("id_1".to_string(), "id_1_0".to_string(), 100).unwrap();
    contract.runtime.authenticated_signer = Some(bob());
    contract.place_bet("id_1".to_string(), "id_1_1".to_string(), 300).unwrap();
    contract.runtime.authenticated_signer = Some(admin());
    contract.resolve_market("id_1".to_string(), "id_1_0".to_string()).unwrap();
    contract.runtime.authenticated_signer = Some(alice());
    contract.claim_winnings("id_1".to_string()).unwrap();
    assert_eq!(
        contract.runtime.transfers,
        vec![
            Transfer { source: None, destination: Account::Escrow, amount: 100 },
            Transfer { source: None, destination: Account::Escrow, amount: 300 },
            Transfer {
                source: Some(Account::Escrow),
                destination: Account::Owner(alice()),
                amount: 400,
            },
        ]
    );
    let market = contract.state.market("id_1".to_string()).unwrap();
    assert_eq!(market.total_staked, 400);
    assert_eq!(market.total_staked, sum_of_outcomes(&market));
}

#[test]
fn execute_operation_dispatches() {
    let mut contract = contract_at(5, Some(alice()));
    let created = contract
        .execute_operation(Operation::CreateMarket {
            question: "q".to_string(),
            outcome_names: names(&["a", "b"]),
            expiry_time: 10,
            category: MarketCategory::Politics,
            parent_id: None,
        })
        .unwrap();
    match created {
        Message::MarketResolved { market_id, winning_outcome_id } => {
            assert_eq!(market_id, "");
            assert_eq!(winning_outcome_id, "");
        }
    }
    contract
        .execute_operation(Operation::PlaceBet {
            market_id: "id_1".to_string(),
            outcome_id: "id_1_0".to_string(),
            amount: 9,
        })
        .unwrap();
    let refused = contract.execute_operation(Operation::ResolveMarket {
        market_id: "id_1".to_string(),
        winning_outcome_id: "id_1_0".to_string(),
    });
    assert!(matches!(refused, Err(CascadeProtocolError::Unauthorized)));
    contract.runtime.authenticated_signer = Some(admin());
    contract
        .execute_operation(Operation::ResolveMarket {
            market_id: "id_1".to_string(),
            winning_outcome_id: "id_1_0".to_string(),
        })
        .unwrap();
    contract.runtime.authenticated_signer = Some(alice());
    contract.execute_operation(Operation::ClaimWinnings { market_id: "id_1".to_string() }).unwrap();
    assert_eq!(contract.runtime.transfers.len(), 2);
    assert_eq!(contract.runtime.transfers[1].amount, 9);
    contract.execute_message(Message::MarketResolved {
        market_id: "id_1".to_string(),
        winning_outcome_id: "id_1_0".to_string(),
    });
    assert_eq!(contract.runtime.transfers.len(), 2);
}

#[test]
fn add_market_replaces_a_market_of_the_same_identifier() {
    let mut contract = with_market(50);
    let mut changed = contract.state.market("id_1".to_string()).unwrap();
    changed.question = "Changed".to_string();
    contract.state.update_market(changed);
    let all = contract.state.markets();
    assert_eq!(all.len(), 1);
    assert_eq!(all[0].question, "Changed");
}

#[test]
fn update_bet_replaces_by_identifier_in_both_indices() {
    let mut state = CascadeProtocol::new();
    state.add_bet(bet("id_2", alice(), "id_1_0", 1));
    state.add_bet(bet("id_3", alice(), "id_1_1", 2));
    state.add_bet(bet("id_4", bob(), "id_1_0", 3));
    let mut changed = bet("id_3", alice(), "id_1_1", 2);
    changed.claimed = true;
    state.update_bet(changed);
    let by_owner = state.bets_for_owner(alice());
    assert_eq!(by_owner.iter().map(|b| b.claimed).collect::<Vec<bool>>(), vec![false, true]);
    let by_market = state.bets_for_market("id_1".to_string());
    assert_eq!(
        by_market.iter().map(|b| b.claimed).collect::<Vec<bool>>(),
        vec![false, true, false]
    );
    // A bet that is not recorded is not inserted.
    state.update_bet(bet("id_9", alice(), "id_1_0", 1));
    assert_eq!(state.bets_for_owner(alice()).len(), 2);
    assert_eq!(state.bets_for_market("id_1".to_string()).len(), 3);
    let entries: Vec<&OwnerBets> = state.bets_by_owner.iter().collect();
    assert_eq!(entries.len(), 2);
    let markets: Vec<&MarketBets> = state.bets_by_market.iter().collect();
    assert_eq!(markets.len(), 1);
}
