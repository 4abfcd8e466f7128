//! The four write operations, as transitions of the ledger, and their dispatcher.

use vstd::prelude::*;
use crate::error::{CascadeProtocolError, ErrorView};
use crate::ledger::{CascadeProtocol, ProtocolView};
use crate::lookup::{is_first, lemma_position_absent, lemma_position_found, position};
use crate::msg::{InstantiationArgument, MarketCategory, Message, Operation, Owner};
use crate::state::{Bet, BetView, Market, MarketStatus, MarketView, OutcomeView, bets_view};
use crate::laws::{
    lemma_claim_winnings_keeps_wf, lemma_create_market_keeps_wf, lemma_place_bet_keeps_wf,
    lemma_resolve_market_keeps_wf,
};
use crate::market::{lemma_stake_sum_zero, outcome_ids};
use crate::state::{Outcome, outcomes_view, text_of};
use crate::text::{lemma_outcome_id_text_injective, outcome_id_string, outcome_id_text};
use crate::wellformed::lemma_index_get_facts;

verus! {

/// One side of a movement of value.
#[derive(Clone, Copy, Debug, PartialEq, Eq)]
pub enum Account {
    /// The pooled account that holds all stakes until claims settle them.
    Escrow,
    /// The account of a participant.
    Owner(Owner),
}

/// A movement of value that an operation asks for.
#[derive(Clone, Copy, Debug, PartialEq, Eq)]
pub struct Transfer {
    /// Where the value comes from; `None` stands for the caller of the operation.
    pub source: Option<Account>,
    /// Where the value goes.
    pub destination: Account,
    /// How much is moved, in whole tokens.
    pub amount: u128,
}

/// What the host tells an operation, and what the operation asks of the host.
#[derive(Debug)]
pub struct ContractRuntime {
    /// The verified identity of whoever submitted the operation, if any.
    pub authenticated_signer: Option<Owner>,
    /// The current time, in microseconds.
    pub system_time: u64,
    /// The movements of value asked for so far, oldest first. The host performs them; where
    /// one fails, it drops every change of the operation that asked for it.
    pub transfers: Vec<Transfer>,
}

/// The application: its ledger and its view of the host.
#[derive(Debug)]
pub struct CascadeProtocolContract {
    pub state: CascadeProtocol,
    pub runtime: ContractRuntime,
}

/// The model of a [`CascadeProtocolContract`].
pub struct ContractView {
    pub state: ProtocolView,
    pub signer: Option<Owner>,
    pub time: u64,
    pub transfers: Seq<Transfer>,
}

impl View for CascadeProtocolContract {
    type V = ContractView;

    open spec fn view(&self) -> ContractView {
        ContractView {
            state: self.state@,
            signer: self.runtime.authenticated_signer,
            time: self.runtime.system_time,
            transfers: self.runtime.transfers@,
        }
    }
}

/// The characters of each of a run of texts.
pub open spec fn texts_view(texts: Seq<String>) -> Seq<Seq<char>> {
    Seq::new(texts.len(), |i: int| texts[i]@)
}

/// The outcomes of a new market called `market_id`: one per name, in order, each with the
/// identifier of its position and nothing staked.
pub open spec fn fresh_outcomes(market_id: Seq<char>, names: Seq<Seq<char>>) -> Seq<OutcomeView> {
    Seq::new(
        names.len(),
        |i: int|
            OutcomeView { id: outcome_id_text(market_id, i as nat), name: names[i], total_staked: 0 },
    )
}

/// The new market called `market_id`: active, nothing staked, no winner.
pub open spec fn fresh_market(
    market_id: Seq<char>,
    question: Seq<char>,
    names: Seq<Seq<char>>,
    expiry_time: u64,
    category: MarketCategory,
    parent_id: Option<Seq<char>>,
) -> MarketView {
    MarketView {
        id: market_id,
        question,
        outcomes: fresh_outcomes(market_id, names),
        total_staked: 0,
        status: MarketStatus::Active,
        expiry_time,
        winning_outcome_id: None,
        parent_id,
        category,
    }
}

/// `bet` is a bet on the outcome `winner` of the market `market_id` that was not claimed.
pub open spec fn is_claimable(bet: BetView, market_id: Seq<char>, winner: Seq<char>) -> bool {
    bet.market_id == market_id && bet.outcome_id == winner && !bet.claimed
}

/// For each bet of a list, whether it is claimable.
pub open spec fn claimable_flags(bets: Seq<BetView>, market_id: Seq<char>, winner: Seq<char>) -> Seq<
    bool,
> {
    Seq::new(bets.len(), |i: int| is_claimable(bets[i], market_id, winner))
}

impl ContractView {
    /// What creating a market does: the error, or the state that follows.
    ///
    /// Fewer than two outcome names are refused first, then an expiry time that is not
    /// after the current time. Otherwise an identifier is issued and the new market is
    /// stored under it.
    pub open spec fn create_market(
        self,
        question: Seq<char>,
        names: Seq<Seq<char>>,
        expiry_time: u64,
        category: MarketCategory,
        parent_id: Option<Seq<char>>,
    ) -> Result<ContractView, ErrorView> {
        if names.len() < 2 {
            Err(ErrorView::InvalidOutcomeCount)
        } else if expiry_time <= self.time {
            Err(ErrorView::InvalidExpiryTime)
        } else {
            Ok(
                ContractView {
                    state: self.state.with_id_issued().with_market(
                        fresh_market(
                            self.state.next_id(),
                            question,
                            names,
                            expiry_time,
                            category,
                            parent_id,
                        ),
                    ),
                    ..self
                },
            )
        }
    }

    /// What placing a bet does: the error, or the state that follows.
    ///
    /// Refused in this order: an amount of zero; an unknown caller; an unknown market; a
    /// market that is not active; a market whose expiry time has come; an unknown outcome.
    /// Otherwise the stake is added to the outcome and to the market, the value is asked
    /// from the caller into escrow, an identifier is issued, and the bet is recorded
    /// under its owner and under its market.
    pub open spec fn place_bet(self, market_id: Seq<char>, outcome_id: Seq<char>, amount: u64) -> Result<
        ContractView,
        ErrorView,
    > {
        if amount == 0 {
            Err(ErrorView::InvalidBetAmount)
        } else {
            match self.signer {
                None => Err(ErrorView::Unauthorized),
                Some(caller) => match self.state.market(market_id) {
                    None => Err(ErrorView::MarketNotFound(market_id)),
                    Some(market) => if market.status != MarketStatus::Active {
                        Err(ErrorView::MarketNotActive)
                    } else if self.time >= market.expiry_time {
                        Err(ErrorView::MarketExpired)
                    } else {
                        match market.outcome_position(outcome_id) {
                            None => Err(ErrorView::OutcomeNotFound(outcome_id)),
                            Some(j) => Ok(
                                ContractView {
                                    state: self.state.with_id_issued().with_market(
                                        market.with_stake(j, amount),
                                    ).with_bet(
                                        BetView {
                                            id: self.state.next_id(),
                                            owner: caller,
                                            market_id,
                                            outcome_id,
                                            amount,
                                            claimed: false,
                                        },
                                    ),
                                    transfers: self.transfers.push(
                                        Transfer {
                                            source: None,
                                            destination: Account::Escrow,
                                            amount: amount as u128,
                                        },
                                    ),
                                    ..self
                                },
                            ),
                        }
                    },
                },
            }
        }
    }

    /// What resolving a market does: the error, or the state that follows.
    ///
    /// Refused in this order: a caller who is unknown or not the admin; an unknown market;
    /// a market that is not active; a winner that is none of the market's outcomes.
    /// Otherwise the market becomes resolved with that winner.
    pub open spec fn resolve_market(self, market_id: Seq<char>, winner: Seq<char>) -> Result<
        ContractView,
        ErrorView,
    > {
        if self.signer is None || self.state.admin != self.signer {
            Err(ErrorView::Unauthorized)
        } else {
            match self.state.market(market_id) {
                None => Err(ErrorView::MarketNotFound(market_id)),
                Some(market) => if market.status != MarketStatus::Active {
                    Err(ErrorView::MarketNotActive)
                } else if market.outcome_position(winner) is None {
                    Err(ErrorView::OutcomeNotFound(winner))
                } else {
                    Ok(
                        ContractView {
                            state: self.state.with_market(market.resolved(winner)),
                            ..self
                        },
                    )
                },
            }
        }
    }

    /// The share owed to a stake of `amount` on the outcome `winner` of `market`; zero
    /// where the market has no such outcome.
    pub open spec fn winnings(market: MarketView, winner: Seq<char>, amount: u64) -> nat {
        match market.outcome_position(winner) {
            Some(j) => market.payout(amount, j),
            None => 0,
        }
    }

    /// What claiming winnings does: the error, or the state that follows.
    ///
    /// Refused in this order: an unknown caller; an unknown market; a market that is not
    /// resolved; a caller without an unclaimed bet on the winning outcome of this market;
    /// a share of zero. Otherwise the share of the caller's first such bet is asked from
    /// escrow to the caller, and that bet is marked as claimed in both indices.
    pub open spec fn claim_winnings(self, market_id: Seq<char>) -> Result<ContractView, ErrorView> {
        match self.signer {
            None => Err(ErrorView::Unauthorized),
            Some(caller) => match self.state.market(market_id) {
                None => Err(ErrorView::MarketNotFound(market_id)),
                Some(market) => if market.status != MarketStatus::Resolved {
                    Err(ErrorView::MarketNotResolved)
                } else {
                    match market.winning_outcome_id {
                        None => Err(ErrorView::MarketNotResolved),
                        Some(winner) => {
                            let bets = self.state.bets_for_owner(caller);
                            match position(claimable_flags(bets, market_id, winner), true) {
                                None => Err(ErrorView::BetNotFound),
                                Some(p) => {
                                    let share = Self::winnings(market, winner, bets[p].amount);
                                    if share == 0 {
                                        Err(
                                            ErrorView::InsufficientFunds {
                                                required: 1,
                                                available: 0,
                                            },
                                        )
                                    } else {
                                        Ok(
                                            ContractView {
                                                state: self.state.with_bet_updated(
                                                    BetView { claimed: true, ..bets[p] },
                                                ),
                                                transfers: self.transfers.push(
                                                    Transfer {
                                                        source: Some(Account::Escrow),
                                                        destination: Account::Owner(caller),
                                                        amount: share as u128,
                                                    },
                                                ),
                                                ..self
                                            },
                                        )
                                    }
                                },
                            }
                        },
                    }
                },
            },
        }
    }
}

/// Finds the first bet of a list that is a claimable bet on the outcome `winner` of the
/// market `market_id`.
pub fn first_claimable(bets: &Vec<Bet>, market_id: &String, winner: &String) -> (found: Option<
    usize,
>)
    ensures
        match found {
            Some(p) => position(claimable_flags(bets_view(bets@), market_id@, winner@), true)
                == Some(p as int) && p < bets.len(),
            None => position(claimable_flags(bets_view(bets@), market_id@, winner@), true) is None,
        },
{
    let ghost flags = claimable_flags(bets_view(bets@), market_id@, winner@);
    let mut p: usize = 0;
    while p < bets.len()
        invariant
            p <= bets.len(),
            flags == claimable_flags(bets_view(bets@), market_id@, winner@),
            forall|j: int| 0 <= j < p ==> flags[j] != true,
        decreases bets.len() - p,
    {
        if bets[p].market_id == *market_id && bets[p].outcome_id == *winner && !bets[p].claimed {
            proof {
                assert(is_first(flags, true, p as int));
                lemma_position_found(flags, true, p as int);
            }
            return Some(p);
        }
        p += 1;
    }
    proof {
        lemma_position_absent(flags, true);
    }
    None
}

/// The share owed to a stake of `amount` on the outcome `winner` of `market`.
pub fn winnings(market: &Market, winner: &String, amount: u64) -> (share: u128)
    ensures
        share == ContractView::winnings(market@, winner@, amount),
{
    match market.find_outcome(winner) {
        Some(j) => market.payout(amount, j),
        None => 0,
    }
}

impl CascadeProtocolContract {
    /// Pays the caller the share of their first unclaimed bet on the winning outcome of a
    /// resolved market, and marks that bet as claimed.
    pub fn claim_winnings(&mut self, market_id: String) -> (result: Result<
        (),
        CascadeProtocolError,
    >)
        ensures
            match result {
                Ok(_) => old(self)@.claim_winnings(market_id@) == Ok::<ContractView, ErrorView>(
                    final(self)@,
                ),
                Err(e) => old(self)@.claim_winnings(market_id@) == Err::<ContractView, ErrorView>(
                    e@,
                ) && final(self)@ == old(self)@,
            },
            old(self)@.state.wf() ==> final(self)@.state.wf(),
    {
        let caller = match self.runtime.authenticated_signer {
            Some(caller) => caller,
            None => {
                return Err(CascadeProtocolError::Unauthorized);
            },
        };
        let i = match self.state.find_market(&market_id) {
            Some(i) => i,
            None => {
                return Err(CascadeProtocolError::MarketNotFound(market_id));
            },
        };
        if self.state.markets[i].status != MarketStatus::Resolved {
            return Err(CascadeProtocolError::MarketNotResolved);
        }
        let winner = match &self.state.markets[i].winning_outcome_id {
            Some(winner) => winner.clone(),
            None => {
                return Err(CascadeProtocolError::MarketNotResolved);
            },
        };
        proof {
            lemma_index_get_facts(self@.state.bets_by_owner, caller);
        }
        let entry = match self.state.find_owner_entry(&caller) {
            Some(entry) => entry,
            None => {
                proof {
                    lemma_position_absent(
                        claimable_flags(Seq::<BetView>::empty(), market_id@, winner@),
                        true,
                    );
                }
                return Err(CascadeProtocolError::BetNotFound);
            },
        };
        let p = match first_claimable(&self.state.bets_by_owner[entry].bets, &market_id, &winner) {
            Some(p) => p,
            None => {
                return Err(CascadeProtocolError::BetNotFound);
            },
        };
        let mut bet = self.state.bets_by_owner[entry].bets[p].clone();
        if bet.claimed {
            // Never taken: the bet was selected as unclaimed.
            return Err(CascadeProtocolError::AlreadyClaimed);
        }
        let share = winnings(&self.state.markets[i], &winner, bet.amount);
        if share == 0 {
            return Err(CascadeProtocolError::InsufficientFunds { required: 1, available: 0 });
        }
        self.runtime.transfers.push(
            Transfer {
                source: Some(Account::Escrow),
                destination: Account::Owner(caller),
                amount: share,
            },
        );
        bet.claimed = true;
        proof {
            if old(self)@.state.wf() {
                lemma_claim_winnings_keeps_wf(old(self)@, market_id@);
            }
        }
        self.state.update_bet(bet);
        Ok(())
    }
}

impl ContractView {
    /// The identifier counter can advance once more.
    pub open spec fn has_next_id(self) -> bool {
        self.state.id_counter < u64::MAX
    }

    /// The stake of the market called `market_id` and the stake on its outcome called
    /// `outcome_id`, where they exist, can grow by `amount` without leaving 64 bits.
    pub open spec fn stake_fits(self, market_id: Seq<char>, outcome_id: Seq<char>, amount: u64) -> bool {
        match self.state.market(market_id) {
            Some(market) => {
                &&& market.total_staked + amount <= u64::MAX
                &&& match market.outcome_position(outcome_id) {
                    Some(j) => market.outcomes[j].total_staked + amount <= u64::MAX,
                    None => true,
                }
            },
            None => true,
        }
    }
}

/// A new market with at least two outcome names is well-formed.
pub proof fn lemma_fresh_market_wf(
    market_id: Seq<char>,
    question: Seq<char>,
    names: Seq<Seq<char>>,
    expiry_time: u64,
    category: MarketCategory,
    parent_id: Option<Seq<char>>,
)
    requires
        names.len() >= 2,
    ensures
        fresh_market(market_id, question, names, expiry_time, category, parent_id).wf(),
{
    let market = fresh_market(market_id, question, names, expiry_time, category, parent_id);
    let ids = outcome_ids(market.outcomes);
    assert forall|i: int, j: int| 0 <= i < j < ids.len() implies ids[i] != ids[j] by {
        if ids[i] == ids[j] {
            lemma_outcome_id_text_injective(market_id, i as nat, j as nat);
        }
    }
    lemma_stake_sum_zero(market.outcomes);
}

impl CascadeProtocolContract {
    /// Sets the admin and starts the identifier counter at zero.
    pub fn instantiate(&mut self, argument: InstantiationArgument)
        ensures
            final(self)@ == (ContractView {
                state: ProtocolView {
                    admin: Some(argument.admin),
                    id_counter: 0,
                    ..old(self)@.state
                },
                ..old(self)@
            }),
            old(self)@.state.markets.len() == 0 && old(self)@.state.bets_by_owner.len() == 0 && old(
                self,
            )@.state.bets_by_market.len() == 0 ==> final(self)@.state.wf(),
    {
        self.state.admin = Some(argument.admin);
        self.state.id_counter = 0;
        proof {
            if old(self)@.state.markets.len() == 0 && old(self)@.state.bets_by_owner.len() == 0
                && old(self)@.state.bets_by_market.len() == 0 {
                let t = self@.state;
                assert forall|bet: BetView| #[trigger]
                    t.owner_index_has(bet) <==> t.market_index_has(bet) by {
                    lemma_index_get_facts(t.bets_by_owner, bet.owner);
                    lemma_index_get_facts(t.bets_by_market, bet.market_id);
                }
            }
        }
    }

    /// Creates a market with one outcome per name, and returns its identifier.
    pub fn create_market(
        &mut self,
        question: String,
        outcome_names: Vec<String>,
        expiry_time: u64,
        category: MarketCategory,
        parent_id: Option<String>,
    ) -> (result: Result<String, CascadeProtocolError>)
        requires
            old(self)@.create_market(
                question@,
                texts_view(outcome_names@),
                expiry_time,
                category,
                text_of(parent_id),
            ) is Ok ==> old(self)@.has_next_id(),
        ensures
            match result {
                Ok(id) => old(self)@.create_market(
                    question@,
                    texts_view(outcome_names@),
                    expiry_time,
                    category,
                    text_of(parent_id),
                ) == Ok::<ContractView, ErrorView>(final(self)@) && id@ == old(
                    self,
                )@.state.next_id(),
                Err(e) => old(self)@.create_market(
                    question@,
                    texts_view(outcome_names@),
                    expiry_time,
                    category,
                    text_of(parent_id),
                ) == Err::<ContractView, ErrorView>(e@) && final(self)@ == old(self)@,
            },
            old(self)@.state.wf() ==> final(self)@.state.wf(),
    {
        if outcome_names.len() < 2 {
            return Err(CascadeProtocolError::InvalidOutcomeCount);
        }
        if expiry_time <= self.runtime.system_time {
            return Err(CascadeProtocolError::InvalidExpiryTime);
        }
        let market_id = self.state.generate_id();
        let ghost names = texts_view(outcome_names@);
        let mut outcomes: Vec<Outcome> = Vec::new();
        let mut index: usize = 0;
        while index < outcome_names.len()
            invariant
                index <= outcome_names.len(),
                outcomes.len() == index,
                names == texts_view(outcome_names@),
                forall|k: int|
                    0 <= k < index ==> (#[trigger] outcomes[k])@ == fresh_outcomes(
                        market_id@,
                        names,
                    )[k],
            decreases outcome_names.len() - index,
        {
            outcomes.push(
                Outcome {
                    id: outcome_id_string(&market_id, index),
                    name: outcome_names[index].clone(),
                    total_staked: 0,
                },
            );
            index += 1;
        }
        assert(outcomes_view(outcomes@) =~= fresh_outcomes(market_id@, names));
        let market = Market {
            id: market_id.clone(),
            question,
            outcomes,
            total_staked: 0,
            status: MarketStatus::Active,
            expiry_time,
            winning_outcome_id: None,
            parent_id,
            category,
        };
        proof {
            if old(self)@.state.wf() {
                lemma_create_market_keeps_wf(
                    old(self)@,
                    question@,
                    names,
                    expiry_time,
                    category,
                    text_of(parent_id),
                );
            }
        }
        self.state.add_market(market);
        Ok(market_id)
    }

    /// Stakes `amount` of the caller on one outcome of an active market, and returns the
    /// identifier of the bet.
    pub fn place_bet(&mut self, market_id: String, outcome_id: String, amount: u64) -> (result:
        Result<String, CascadeProtocolError>)
        requires
            old(self)@.place_bet(market_id@, outcome_id@, amount) is Ok ==> old(
                self,
            )@.has_next_id() && old(self)@.stake_fits(market_id@, outcome_id@, amount),
        ensures
            match result {
                Ok(id) => old(self)@.place_bet(market_id@, outcome_id@, amount) == Ok::<
                    ContractView,
                    ErrorView,
                >(final(self)@) && id@ == old(self)@.state.next_id(),
                Err(e) => old(self)@.place_bet(market_id@, outcome_id@, amount) == Err::<
                    ContractView,
                    ErrorView,
                >(e@) && final(self)@ == old(self)@,
            },
            old(self)@.state.wf() ==> final(self)@.state.wf(),
    {
        if amount == 0 {
            return Err(CascadeProtocolError::InvalidBetAmount);
        }
        let caller = match self.runtime.authenticated_signer {
            Some(caller) => caller,
            None => {
                return Err(CascadeProtocolError::Unauthorized);
            },
        };
        let i = match self.state.find_market(&market_id) {
            Some(i) => i,
            None => {
                return Err(CascadeProtocolError::MarketNotFound(market_id));
            },
        };
        if self.state.markets[i].status != MarketStatus::Active {
            return Err(CascadeProtocolError::MarketNotActive);
        }
        if self.runtime.system_time >= self.state.markets[i].expiry_time {
            return Err(CascadeProtocolError::MarketExpired);
        }
        let j = match self.state.markets[i].find_outcome(&outcome_id) {
            Some(j) => j,
            None => {
                return Err(CascadeProtocolError::OutcomeNotFound(outcome_id));
            },
        };
        let mut market = self.state.markets[i].clone();
        market.add_stake(j, amount);
        self.runtime.transfers.push(
            Transfer { source: None, destination: Account::Escrow, amount: amount as u128 },
        );
        let bet_id = self.state.generate_id();
        let bet = Bet {
            id: bet_id.clone(),
            owner: caller,
            market_id,
            outcome_id,
            amount,
            claimed: false,
        };
        proof {
            if old(self)@.state.wf() {
                lemma_place_bet_keeps_wf(old(self)@, bet@.market_id, bet@.outcome_id, amount);
            }
        }
        self.state.update_market(market);
        self.state.add_bet(bet);
        Ok(bet_id)
    }

    /// Declares the winning outcome of an active market. Only the admin may do so.
    pub fn resolve_market(&mut self, market_id: String, winning_outcome_id: String) -> (result:
        Result<(), CascadeProtocolError>)
        ensures
            match result {
                Ok(_) => old(self)@.resolve_market(market_id@, winning_outcome_id@) == Ok::<
                    ContractView,
                    ErrorView,
                >(final(self)@),
                Err(e) => old(self)@.resolve_market(market_id@, winning_outcome_id@) == Err::<
                    ContractView,
                    ErrorView,
                >(e@) && final(self)@ == old(self)@,
            },
            old(self)@.state.wf() ==> final(self)@.state.wf(),
    {
        let caller = match self.runtime.authenticated_signer {
            Some(caller) => caller,
            None => {
                return Err(CascadeProtocolError::Unauthorized);
            },
        };
        let is_admin = match self.state.admin {
            Some(admin) => admin == caller,
            None => false,
        };
        if !is_admin {
            return Err(CascadeProtocolError::Unauthorized);
        }
        let i = match self.state.find_market(&market_id) {
            Some(i) => i,
            None => {
                return Err(CascadeProtocolError::MarketNotFound(market_id));
            },
        };
        if self.state.markets[i].status != MarketStatus::Active {
            return Err(CascadeProtocolError::MarketNotActive);
        }
        if self.state.markets[i].find_outcome(&winning_outcome_id).is_none() {
            return Err(CascadeProtocolError::OutcomeNotFound(winning_outcome_id));
        }
        let mut market = self.state.markets[i].clone();
        market.status = MarketStatus::Resolved;
        market.winning_outcome_id = Some(winning_outcome_id);
        proof {
            if old(self)@.state.wf() {
                lemma_resolve_market_keeps_wf(old(self)@, market_id@, market@.winning_outcome_id->0);
            }
        }
        self.state.update_market(market);
        Ok(())
    }
}

impl ContractView {
    /// What an operation does: the error, or the state that follows.
    pub open spec fn execute(self, operation: Operation) -> Result<ContractView, ErrorView> {
        match operation {
            Operation::CreateMarket { question, outcome_names, expiry_time, category, parent_id } => {
                self.create_market(
                    question@,
                    texts_view(outcome_names@),
                    expiry_time,
                    category,
                    text_of(parent_id),
                )
            },
            Operation::PlaceBet { market_id, outcome_id, amount } => self.place_bet(
                market_id@,
                outcome_id@,
                amount,
            ),
            Operation::ResolveMarket { market_id, winning_outcome_id } => self.resolve_market(
                market_id@,
                winning_outcome_id@,
            ),
            Operation::ClaimWinnings { market_id } => self.claim_winnings(market_id@),
        }
    }

    /// The numbers that `operation` would change can take the change: the identifier
    /// counter where it issues an identifier, the stake of the market where it adds to it.
    pub open spec fn has_room_for(self, operation: Operation) -> bool {
        match operation {
            Operation::CreateMarket { .. } => self.has_next_id(),
            Operation::PlaceBet { market_id, outcome_id, amount } => self.has_next_id()
                && self.stake_fits(market_id@, outcome_id@, amount),
            _ => true,
        }
    }
}

impl CascadeProtocolContract {
    /// Tells whether the numbers that `operation` would change can take the change.
    pub fn has_room_for(&self, operation: &Operation) -> (room: bool)
        ensures
            room == self@.has_room_for(*operation),
    {
        match operation {
            Operation::CreateMarket { .. } => self.state.id_counter < u64::MAX,
            Operation::PlaceBet { market_id, outcome_id, amount } => {
                if self.state.id_counter == u64::MAX {
                    return false;
                }
                match self.state.find_market(market_id) {
                    Some(i) => {
                        let market = &self.state.markets[i];
                        if *amount > u64::MAX - market.total_staked {
                            return false;
                        }
                        match market.find_outcome(outcome_id) {
                            Some(j) => *amount <= u64::MAX - market.outcomes[j].total_staked,
                            None => true,
                        }
                    },
                    None => true,
                }
            },
            Operation::ResolveMarket { .. } => true,
            Operation::ClaimWinnings { .. } => true,
        }
    }

    /// Carries out one operation. A refused operation changes nothing and gives its
    /// error; an accepted one gives a notification without content.
    pub fn execute_operation(&mut self, operation: Operation) -> (result: Result<
        Message,
        CascadeProtocolError,
    >)
        requires
            old(self)@.execute(operation) is Ok ==> old(self)@.has_room_for(operation),
        ensures
            match result {
                Ok(Message::MarketResolved { market_id, winning_outcome_id }) => {
                    &&& old(self)@.execute(operation) == Ok::<ContractView, ErrorView>(
                        final(self)@,
                    )
                    &&& market_id@.len() == 0
                    &&& winning_outcome_id@.len() == 0
                },
                Err(e) => old(self)@.execute(operation) == Err::<ContractView, ErrorView>(e@)
                    && final(self)@ == old(self)@,
            },
            old(self)@.state.wf() ==> final(self)@.state.wf(),
    {
        match operation {
            Operation::CreateMarket { question, outcome_names, expiry_time, category, parent_id } => {
                match self.create_market(question, outcome_names, expiry_time, category, parent_id) {
                    Ok(_) => {},
                    Err(e) => {
                        return Err(e);
                    },
                }
            },
            Operation::PlaceBet { market_id, outcome_id, amount } => {
                match self.place_bet(market_id, outcome_id, amount) {
                    Ok(_) => {},
                    Err(e) => {
                        return Err(e);
                    },
                }
            },
            Operation::ResolveMarket { market_id, winning_outcome_id } => {
                match self.resolve_market(market_id, winning_outcome_id) {
                    Ok(_) => {},
                    Err(e) => {
                        return Err(e);
                    },
                }
            },
            Operation::ClaimWinnings { market_id } => {
                match self.claim_winnings(market_id) {
                    Ok(_) => {},
                    Err(e) => {
                        return Err(e);
                    },
                }
            },
        }
        Ok(Message::MarketResolved { market_id: String::new(), winning_outcome_id: String::new() })
    }

    /// Takes note of a notification from another chain. None of them changes anything.
    pub fn execute_message(&mut self, message: Message)
        ensures
            final(self)@ == old(self)@,
    {
        match message {
            Message::MarketResolved { .. } => {},
        }
    }
}

} // verus!

