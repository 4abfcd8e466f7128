//! What holds of the operations, whatever the state and the arguments.

use vstd::prelude::*;
use crate::contract::{
    ContractView, claimable_flags, fresh_market, is_claimable, lemma_fresh_market_wf,
};
use crate::error::ErrorView;
use crate::ledger::{ProtocolView, index_get, market_ids};
use crate::lookup::{lemma_position_absent, lemma_position_facts, position};
use crate::market::{lemma_with_stake_wf, outcome_ids, stake_sum};
use crate::msg::{MarketCategory, Operation, Owner};
use crate::state::{BetView, MarketStatus, text_of};
use crate::text::id_text;
use crate::wellformed::{
    is_issued, lemma_index_get_put, lemma_index_get_replace, lemma_index_lacks_next_id, lemma_next_id_is_no_market, lemma_wf_bet_claimed,
    lemma_wf_id_issued, lemma_wf_new_bet, lemma_wf_new_market, lemma_wf_replace_market,
};

verus! {

/// In a well-formed ledger the stake of every market is the sum of the stakes on its
/// outcomes.
pub proof fn lemma_stakes_are_conserved(s: ProtocolView, market_id: Seq<char>)
    requires
        s.wf(),
    ensures
        s.market(market_id) matches Some(market) ==> market.total_staked == stake_sum(
            market.outcomes,
        ),
{
    lemma_position_facts(market_ids(s.markets), market_id);
    if let Some(i) = position(market_ids(s.markets), market_id) {
        assert(s.markets[i].wf());
    }
}

/// Creating a market keeps the ledger well-formed.
pub proof fn lemma_create_market_keeps_wf(
    c: ContractView,
    question: Seq<char>,
    names: Seq<Seq<char>>,
    expiry_time: u64,
    category: MarketCategory,
    parent_id: Option<Seq<char>>,
)
    requires
        c.state.wf(),
        c.has_next_id(),
    ensures
        c.create_market(question, names, expiry_time, category, parent_id) matches Ok(next)
            ==> next.state.wf() && next.state.markets == c.state.markets.push(
            fresh_market(c.state.next_id(), question, names, expiry_time, category, parent_id),
        ),
{
    if c.create_market(question, names, expiry_time, category, parent_id) is Ok {
        let s = c.state;
        let market = fresh_market(s.next_id(), question, names, expiry_time, category, parent_id);
        lemma_wf_id_issued(s);
        lemma_next_id_is_no_market(s);
        lemma_index_lacks_next_id(s.bets_by_owner, s.id_counter);
        lemma_fresh_market_wf(s.next_id(), question, names, expiry_time, category, parent_id);
        assert(is_issued(market.id, s.with_id_issued().id_counter)) by {
            let k = (s.id_counter + 1) as nat;
            assert(1 <= k <= s.with_id_issued().id_counter && market.id == id_text(k));
        }
        lemma_wf_new_market(s.with_id_issued(), market);
    }
}

/// Placing a bet keeps the ledger well-formed, and replaces the market by the market
/// with the stake added.
pub proof fn lemma_place_bet_keeps_wf(
    c: ContractView,
    market_id: Seq<char>,
    outcome_id: Seq<char>,
    amount: u64,
)
    requires
        c.state.wf(),
        c.has_next_id(),
        c.stake_fits(market_id, outcome_id, amount),
    ensures
        c.place_bet(market_id, outcome_id, amount) matches Ok(next) ==> {
            let i = position(market_ids(c.state.markets), market_id)->0;
            let j = c.state.markets[i].outcome_position(outcome_id)->0;
            &&& next.state.wf()
            &&& 0 <= i < c.state.markets.len()
            &&& 0 <= j < c.state.markets[i].outcomes.len()
            &&& next.state.markets == c.state.markets.update(
                i,
                c.state.markets[i].with_stake(j, amount),
            )
            &&& c.state.markets[i].outcomes[j].total_staked + amount <= u64::MAX
        },
{
    if let Ok(next) = c.place_bet(market_id, outcome_id, amount) {
        let s = c.state;
        lemma_position_facts(market_ids(s.markets), market_id);
        let i = position(market_ids(s.markets), market_id)->0;
        let market = s.markets[i];
        lemma_position_facts(outcome_ids(market.outcomes), outcome_id);
        let j = market.outcome_position(outcome_id)->0;
        assert(market.wf());
        lemma_with_stake_wf(market, j, amount);
        let staked = market.with_stake(j, amount);
        let s1 = s.with_id_issued();
        lemma_wf_id_issued(s);
        lemma_wf_replace_market(s1, i, staked);
        let s2 = s1.with_market(staked);
        let bet = BetView {
            id: s.next_id(),
            owner: c.signer->0,
            market_id,
            outcome_id,
            amount,
            claimed: false,
        };
        assert(is_issued(bet.id, s2.id_counter)) by {
            let k = (s.id_counter + 1) as nat;
            assert(1 <= k <= s2.id_counter && bet.id == id_text(k));
        }
        lemma_index_lacks_next_id(s.bets_by_owner, s.id_counter);
        lemma_index_lacks_next_id(s.bets_by_market, s.id_counter);
        lemma_next_id_is_no_market(s);
        assert(market_ids(s2.markets) =~= market_ids(s.markets));
        lemma_wf_new_bet(s2, bet);
    }
}

/// Resolving a market keeps the ledger well-formed.
pub proof fn lemma_resolve_market_keeps_wf(c: ContractView, market_id: Seq<char>, winner: Seq<char>)
    requires
        c.state.wf(),
    ensures
        c.resolve_market(market_id, winner) matches Ok(next) ==> next.state.wf(),
{
    if c.resolve_market(market_id, winner) is Ok {
        let s = c.state;
        lemma_position_facts(market_ids(s.markets), market_id);
        let i = position(market_ids(s.markets), market_id)->0;
        assert(s.markets[i].wf());
        lemma_wf_replace_market(s, i, s.markets[i].resolved(winner));
    }
}

/// Claiming winnings keeps the ledger well-formed, and changes, of the caller's bets, only
/// the one that was settled.
pub proof fn lemma_claim_winnings_keeps_wf(c: ContractView, market_id: Seq<char>)
    requires
        c.state.wf(),
    ensures
        c.claim_winnings(market_id) matches Ok(next) ==> {
            let caller = c.signer->0;
            let winner = c.state.market(market_id)->0.winning_outcome_id->0;
            let bets = c.state.bets_for_owner(caller);
            let p = position(claimable_flags(bets, market_id, winner), true)->0;
            &&& next.state.wf()
            &&& 0 <= p < bets.len()
            &&& is_claimable(bets[p], market_id, winner)
            &&& next.state.bets_for_owner(caller) == bets.update(
                p,
                BetView { claimed: true, ..bets[p] },
            )
            &&& next.state.markets == c.state.markets
        },
{
    if c.claim_winnings(market_id) is Ok {
        let caller = c.signer->0;
        let winner = c.state.market(market_id)->0.winning_outcome_id->0;
        let bets = c.state.bets_for_owner(caller);
        lemma_position_facts(claimable_flags(bets, market_id, winner), true);
        let p = position(claimable_flags(bets, market_id, winner), true)->0;
        lemma_wf_bet_claimed(c.state, caller, p);
    }
}

/// Every accepted operation keeps the ledger well-formed; so the stake of every market
/// is the sum of the stakes on its outcomes at all times.
pub proof fn lemma_operations_keep_wf(c: ContractView, operation: Operation)
    requires
        c.state.wf(),
        c.has_room_for(operation),
    ensures
        c.execute(operation) matches Ok(next) ==> next.state.wf(),
{
    match operation {
        Operation::CreateMarket { question, outcome_names, expiry_time, category, parent_id } => {
            lemma_create_market_keeps_wf(
                c,
                question@,
                crate::contract::texts_view(outcome_names@),
                expiry_time,
                category,
                text_of(parent_id),
            );
        },
        Operation::PlaceBet { market_id, outcome_id, amount } => {
            lemma_place_bet_keeps_wf(c, market_id@, outcome_id@, amount);
        },
        Operation::ResolveMarket { market_id, winning_outcome_id } => {
            lemma_resolve_market_keeps_wf(c, market_id@, winning_outcome_id@);
        },
        Operation::ClaimWinnings { market_id } => {
            lemma_claim_winnings_keeps_wf(c, market_id@);
        },
    }
}

/// Creating a market with fewer than two outcome names is refused as an invalid outcome
/// count, whatever else is asked.
pub proof fn lemma_too_few_outcomes_are_refused(
    c: ContractView,
    question: Seq<char>,
    names: Seq<Seq<char>>,
    expiry_time: u64,
    category: MarketCategory,
    parent_id: Option<Seq<char>>,
)
    requires
        names.len() < 2,
    ensures
        c.create_market(question, names, expiry_time, category, parent_id) == Err::<
            ContractView,
            ErrorView,
        >(ErrorView::InvalidOutcomeCount),
{
}

/// Creating a market that has at least two outcome names and an expiry time that is not
/// after the current time is refused as an invalid expiry time.
pub proof fn lemma_past_expiry_is_refused(
    c: ContractView,
    question: Seq<char>,
    names: Seq<Seq<char>>,
    expiry_time: u64,
    category: MarketCategory,
    parent_id: Option<Seq<char>>,
)
    requires
        names.len() >= 2,
        expiry_time <= c.time,
    ensures
        c.create_market(question, names, expiry_time, category, parent_id) == Err::<
            ContractView,
            ErrorView,
        >(ErrorView::InvalidExpiryTime),
{
}

/// A bet of zero is refused as an invalid amount, whatever the caller, the market and
/// the state.
pub proof fn lemma_zero_bet_is_refused(c: ContractView, market_id: Seq<char>, outcome_id: Seq<char>)
    ensures
        c.place_bet(market_id, outcome_id, 0) == Err::<ContractView, ErrorView>(
            ErrorView::InvalidBetAmount,
        ),
{
}

/// A bet of a known caller on an active market whose expiry time has come is refused
/// because the market has expired.
pub proof fn lemma_bet_after_expiry_is_refused(
    c: ContractView,
    market_id: Seq<char>,
    outcome_id: Seq<char>,
    amount: u64,
)
    requires
        amount > 0,
        c.signer is Some,
        c.state.market(market_id) matches Some(market) && market.status == MarketStatus::Active
            && c.time >= market.expiry_time,
    ensures
        c.place_bet(market_id, outcome_id, amount) == Err::<ContractView, ErrorView>(
            ErrorView::MarketExpired,
        ),
{
}

/// Resolving a market is refused as unauthorized for every caller but the admin.
pub proof fn lemma_only_admin_resolves(c: ContractView, market_id: Seq<char>, winner: Seq<char>)
    requires
        c.signer is None || c.signer != c.state.admin,
    ensures
        c.resolve_market(market_id, winner) == Err::<ContractView, ErrorView>(
            ErrorView::Unauthorized,
        ),
{
}

/// A claim of a known caller on a market that exists and is not resolved is refused
/// because the market is not resolved.
pub proof fn lemma_claim_needs_resolution(c: ContractView, market_id: Seq<char>)
    requires
        c.signer is Some,
        c.state.market(market_id) matches Some(market) && market.status != MarketStatus::Resolved,
    ensures
        c.claim_winnings(market_id) == Err::<ContractView, ErrorView>(
            ErrorView::MarketNotResolved,
        ),
{
}

/// The caller of `c` has exactly one unclaimed bet on the winning outcome of the market
/// called `market_id`.
pub open spec fn has_single_claimable_bet(c: ContractView, market_id: Seq<char>) -> bool {
    &&& c.signer is Some
    &&& c.state.market(market_id) is Some
    &&& c.state.market(market_id)->0.winning_outcome_id is Some
    &&& {
        let bets = c.state.bets_for_owner(c.signer->0);
        let winner = c.state.market(market_id)->0.winning_outcome_id->0;
        forall|p: int, q: int|
            0 <= p < bets.len() && 0 <= q < bets.len() && is_claimable(bets[p], market_id, winner)
                && is_claimable(bets[q], market_id, winner) ==> p == q
    }
}

/// After a claim was settled for a caller who had a single unclaimed bet on the winning
/// outcome, a second claim of that caller on that market finds no bet, at whatever time
/// it is made.
pub proof fn lemma_second_claim_finds_no_bet(c: ContractView, market_id: Seq<char>, later: u64)
    requires
        c.state.wf(),
        has_single_claimable_bet(c, market_id),
        c.claim_winnings(market_id) is Ok,
    ensures
        (ContractView { time: later, ..c.claim_winnings(market_id)->Ok_0 }).claim_winnings(
            market_id,
        ) == Err::<ContractView, ErrorView>(ErrorView::BetNotFound),
{
    let next = c.claim_winnings(market_id)->Ok_0;
    let caller = c.signer->0;
    let winner = c.state.market(market_id)->0.winning_outcome_id->0;
    let bets = c.state.bets_for_owner(caller);
    lemma_claim_winnings_keeps_wf(c, market_id);
    let p = position(claimable_flags(bets, market_id, winner), true)->0;
    let after = next.state.bets_for_owner(caller);
    let flags = claimable_flags(after, market_id, winner);
    assert forall|q: int| 0 <= q < flags.len() implies flags[q] != true by {
        if q != p {
            assert(after[q] == bets[q]);
        }
    }
    lemma_position_absent(flags, true);
}

/// One call that places a bet: who calls, when, and how much is staked.
pub struct BetCall {
    pub signer: Option<Owner>,
    pub time: u64,
    pub amount: u64,
}

/// The sum of the amounts of a run of calls.
pub open spec fn staked_by(calls: Seq<BetCall>) -> nat
    decreases calls.len(),
{
    if calls.len() == 0 {
        0
    } else {
        staked_by(calls.drop_last()) + calls.last().amount as nat
    }
}

/// The state after each of `calls`, in order, has placed its bet on the outcome
/// `outcome_id` of the market `market_id`; `None` where one of them is refused, or finds
/// no room for the next identifier or for its stake.
pub open spec fn after_bets(
    c: ContractView,
    market_id: Seq<char>,
    outcome_id: Seq<char>,
    calls: Seq<BetCall>,
) -> Option<ContractView>
    decreases calls.len(),
{
    if calls.len() == 0 {
        Some(c)
    } else {
        match after_bets(c, market_id, outcome_id, calls.drop_last()) {
            Some(before) => {
                let call = calls.last();
                let at_call = ContractView { signer: call.signer, time: call.time, ..before };
                if at_call.has_next_id() && at_call.stake_fits(
                    market_id,
                    outcome_id,
                    call.amount,
                ) {
                    match at_call.place_bet(market_id, outcome_id, call.amount) {
                        Ok(next) => Some(next),
                        Err(_) => None,
                    }
                } else {
                    None
                }
            },
            None => None,
        }
    }
}

/// After any number of accepted bets on one outcome, the stake on that outcome has grown
/// by the sum of their amounts, and the stake of the market is the sum of the stakes on
/// its outcomes.
pub proof fn lemma_bets_add_up(
    c: ContractView,
    market_id: Seq<char>,
    outcome_id: Seq<char>,
    calls: Seq<BetCall>,
)
    requires
        c.state.wf(),
        c.state.market(market_id) is Some,
        c.state.market(market_id)->0.outcome_position(outcome_id) is Some,
        after_bets(c, market_id, outcome_id, calls) is Some,
    ensures
        ({
            let last = after_bets(c, market_id, outcome_id, calls)->0;
            let before = c.state.market(market_id)->0;
            let j = before.outcome_position(outcome_id)->0;
            &&& last.state.wf()
            &&& last.state.market(market_id) matches Some(market) && {
                &&& market.outcome_position(outcome_id) == Some(j)
                &&& 0 <= j < market.outcomes.len()
                &&& market.outcomes[j].total_staked == before.outcomes[j].total_staked
                    + staked_by(calls)
                &&& market.total_staked == stake_sum(market.outcomes)
            }
        }),
    decreases calls.len(),
{
    let before = c.state.market(market_id)->0;
    lemma_position_facts(market_ids(c.state.markets), market_id);
    lemma_position_facts(outcome_ids(before.outcomes), outcome_id);
    lemma_stakes_are_conserved(c.state, market_id);
    if calls.len() > 0 {
        let earlier = after_bets(c, market_id, outcome_id, calls.drop_last())->0;
        lemma_bets_add_up(c, market_id, outcome_id, calls.drop_last());
        let call = calls.last();
        let at_call = ContractView { signer: call.signer, time: call.time, ..earlier };
        let last = at_call.place_bet(market_id, outcome_id, call.amount)->Ok_0;
        lemma_place_bet_keeps_wf(at_call, market_id, outcome_id, call.amount);
        let i = position(market_ids(earlier.state.markets), market_id)->0;
        let market = earlier.state.markets[i];
        let j = market.outcome_position(outcome_id)->0;
        let staked = market.with_stake(j, call.amount);
        lemma_with_stake_wf(market, j, call.amount);
        assert(market_ids(last.state.markets) =~= market_ids(earlier.state.markets));
        lemma_position_facts(market_ids(earlier.state.markets), market_id);
        lemma_stakes_are_conserved(last.state, market_id);
    }
}

/// A resolved market stays resolved, with its winner: no accepted operation changes it.
pub proof fn lemma_resolution_is_final(c: ContractView, operation: Operation, market_id: Seq<char>)
    requires
        c.state.wf(),
        c.has_room_for(operation),
        c.execute(operation) is Ok,
        c.state.market(market_id) matches Some(market) && market.status == MarketStatus::Resolved,
    ensures
        c.execute(operation)->Ok_0.state.market(market_id) == c.state.market(market_id),
{
    let next = c.execute(operation)->Ok_0;
    let ids = market_ids(c.state.markets);
    lemma_position_facts(ids, market_id);
    let i = position(ids, market_id)->0;
    match operation {
        Operation::CreateMarket { question, outcome_names, expiry_time, category, parent_id } => {
            lemma_create_market_keeps_wf(
                c,
                question@,
                crate::contract::texts_view(outcome_names@),
                expiry_time,
                category,
                text_of(parent_id),
            );
            assert(market_ids(next.state.markets) =~= ids.push(c.state.next_id()));
            crate::lookup::lemma_position_push(ids, c.state.next_id(), market_id);
        },
        Operation::PlaceBet { market_id: target, outcome_id, amount } => {
            lemma_place_bet_keeps_wf(c, target@, outcome_id@, amount);
            lemma_position_facts(ids, target@);
            assert(market_ids(next.state.markets) =~= ids);
        },
        Operation::ResolveMarket { market_id: target, winning_outcome_id } => {
            lemma_position_facts(ids, target@);
            let k = position(ids, target@)->0;
            assert(market_ids(next.state.markets) =~= ids);
        },
        Operation::ClaimWinnings { market_id: target } => {
            lemma_claim_winnings_keeps_wf(c, target@);
        },
    }
}

/// No accepted operation removes an outcome, renames one, or lowers the stake on one.
pub proof fn lemma_stakes_never_shrink(c: ContractView, operation: Operation, market_id: Seq<char>)
    requires
        c.state.wf(),
        c.has_room_for(operation),
        c.execute(operation) is Ok,
        c.state.market(market_id) is Some,
    ensures
        ({
            let before = c.state.market(market_id)->0;
            c.execute(operation)->Ok_0.state.market(market_id) matches Some(after) && {
                &&& after.outcomes.len() == before.outcomes.len()
                &&& forall|j: int|
                    0 <= j < before.outcomes.len() ==> (#[trigger] after.outcomes[j]).id
                        == before.outcomes[j].id && after.outcomes[j].name
                        == before.outcomes[j].name && after.outcomes[j].total_staked
                        >= before.outcomes[j].total_staked
                &&& after.total_staked >= before.total_staked
            }
        }),
{
    let next = c.execute(operation)->Ok_0;
    let ids = market_ids(c.state.markets);
    lemma_position_facts(ids, market_id);
    match operation {
        Operation::CreateMarket { question, outcome_names, expiry_time, category, parent_id } => {
            lemma_create_market_keeps_wf(
                c,
                question@,
                crate::contract::texts_view(outcome_names@),
                expiry_time,
                category,
                text_of(parent_id),
            );
            assert(market_ids(next.state.markets) =~= ids.push(c.state.next_id()));
            crate::lookup::lemma_position_push(ids, c.state.next_id(), market_id);
        },
        Operation::PlaceBet { market_id: target, outcome_id, amount } => {
            lemma_place_bet_keeps_wf(c, target@, outcome_id@, amount);
            lemma_position_facts(ids, target@);
            assert(market_ids(next.state.markets) =~= ids);
        },
        Operation::ResolveMarket { market_id: target, winning_outcome_id } => {
            lemma_position_facts(ids, target@);
            assert(market_ids(next.state.markets) =~= ids);
        },
        Operation::ClaimWinnings { market_id: target } => {
            lemma_claim_winnings_keeps_wf(c, target@);
        },
    }
}

/// No accepted operation removes a bet or moves one within the list of its owner, and of
/// a bet nothing ever changes but that it becomes claimed.
pub proof fn lemma_bets_are_kept(c: ContractView, operation: Operation, owner: Owner)
    requires
        c.state.wf(),
        c.has_room_for(operation),
        c.execute(operation) is Ok,
    ensures
        ({
            let before = c.state.bets_for_owner(owner);
            let after = c.execute(operation)->Ok_0.state.bets_for_owner(owner);
            &&& after.len() >= before.len()
            &&& forall|p: int|
                0 <= p < before.len() ==> (#[trigger] after[p]) == before[p] || (!before[p].claimed
                    && after[p] == BetView { claimed: true, ..before[p] })
        }),
{
    let before = c.state.bets_for_owner(owner);
    match operation {
        Operation::CreateMarket { .. } => {},
        Operation::PlaceBet { market_id, outcome_id, amount } => {
            let bet = BetView {
                id: c.state.next_id(),
                owner: c.signer->0,
                market_id: market_id@,
                outcome_id: outcome_id@,
                amount,
                claimed: false,
            };
            lemma_index_get_put(
                c.state.bets_by_owner,
                bet.owner,
                index_get(c.state.bets_by_owner, bet.owner).push(bet),
                owner,
            );
        },
        Operation::ResolveMarket { .. } => {},
        Operation::ClaimWinnings { market_id } => {
            lemma_claim_winnings_keeps_wf(c, market_id@);
            let caller = c.signer->0;
            let winner = c.state.market(market_id@)->0.winning_outcome_id->0;
            let bets = c.state.bets_for_owner(caller);
            let p = position(claimable_flags(bets, market_id@, winner), true)->0;
            lemma_index_get_replace(
                c.state.bets_by_owner,
                caller,
                BetView { claimed: true, ..bets[p] },
                owner,
            );
        },
    }
}

} // verus!

