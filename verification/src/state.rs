//! Markets, outcomes and bets, each with its model.

use vstd::prelude::*;

use crate::msg::{MarketCategory, Owner};

verus! {

/// Where a market stands in its life.
#[derive(Clone, Copy, Debug, PartialEq, Eq, Structural)]
pub enum MarketStatus {
    Active,
    Resolved,
    Expired,
}

/// One possible answer to a market's question.
#[derive(Debug)]
pub struct Outcome {
    pub id: String,
    pub name: String,
    pub total_staked: u64,
}

/// A question with its outcomes and the stakes pooled on them.
#[derive(Debug)]
pub struct Market {
    pub id: String,
    pub question: String,
    pub outcomes: Vec<Outcome>,
    pub total_staked: u64,
    pub status: MarketStatus,
    pub expiry_time: u64,
    pub winning_outcome_id: Option<String>,
    pub parent_id: Option<String>,
    pub category: MarketCategory,
}

/// A stake of one owner on one outcome of one market.
#[derive(Debug)]
pub struct Bet {
    pub id: String,
    pub owner: Owner,
    pub market_id: String,
    pub outcome_id: String,
    pub amount: u64,
    pub claimed: bool,
}

/// The model of an [`Outcome`].
pub struct OutcomeView {
    pub id: Seq<char>,
    pub name: Seq<char>,
    pub total_staked: u64,
}

/// The model of a [`Market`].
pub struct MarketView {
    pub id: Seq<char>,
    pub question: Seq<char>,
    pub outcomes: Seq<OutcomeView>,
    pub total_staked: u64,
    pub status: MarketStatus,
    pub expiry_time: u64,
    pub winning_outcome_id: Option<Seq<char>>,
    pub parent_id: Option<Seq<char>>,
    pub category: MarketCategory,
}

/// The model of a [`Bet`].
pub struct BetView {
    pub id: Seq<char>,
    pub owner: Owner,
    pub market_id: Seq<char>,
    pub outcome_id: Seq<char>,
    pub amount: u64,
    pub claimed: bool,
}

/// The characters of an optional text.
pub open spec fn text_of(t: Option<String>) -> Option<Seq<char>> {
    match t {
        Some(s) => Some(s@),
        None => None,
    }
}

/// The models of a run of outcomes.
pub open spec fn outcomes_view(outcomes: Seq<Outcome>) -> Seq<OutcomeView> {
    Seq::new(outcomes.len(), |i: int| outcomes[i]@)
}

/// The models of a run of markets.
pub open spec fn markets_view(markets: Seq<Market>) -> Seq<MarketView> {
    Seq::new(markets.len(), |i: int| markets[i]@)
}

/// The models of a run of bets.
pub open spec fn bets_view(bets: Seq<Bet>) -> Seq<BetView> {
    Seq::new(bets.len(), |i: int| bets[i]@)
}

impl View for Outcome {
    type V = OutcomeView;

    open spec fn view(&self) -> OutcomeView {
        OutcomeView { id: self.id@, name: self.name@, total_staked: self.total_staked }
    }
}

impl View for Market {
    type V = MarketView;

    open spec fn view(&self) -> MarketView {
        MarketView {
            id: self.id@,
            question: self.question@,
            outcomes: outcomes_view(self.outcomes@),
            total_staked: self.total_staked,
            status: self.status,
            expiry_time: self.expiry_time,
            winning_outcome_id: text_of(self.winning_outcome_id),
            parent_id: text_of(self.parent_id),
            category: self.category,
        }
    }
}

impl View for Bet {
    type V = BetView;

    open spec fn view(&self) -> BetView {
        BetView {
            id: self.id@,
            owner: self.owner,
            market_id: self.market_id@,
            outcome_id: self.outcome_id@,
            amount: self.amount,
            claimed: self.claimed,
        }
    }
}

/// Copies an optional text.
pub fn clone_text(t: &Option<String>) -> (copy: Option<String>)
    ensures
        text_of(copy) == text_of(*t),
{
    match t {
        Some(s) => Some(s.clone()),
        None => None,
    }
}

impl Clone for Outcome {
    fn clone(&self) -> (copy: Self)
        ensures
            copy@ == self@,
    {
        Outcome { id: self.id.clone(), name: self.name.clone(), total_staked: self.total_staked }
    }
}

impl Clone for Market {
    fn clone(&self) -> (copy: Self)
        ensures
            copy@ == self@,
    {
        let mut outcomes: Vec<Outcome> = Vec::new();
        let mut i: usize = 0;
        while i < self.outcomes.len()
            invariant
                i <= self.outcomes.len(),
                outcomes.len() == i,
                forall|j: int| 0 <= j < i ==> outcomes[j]@ == self.outcomes[j]@,
            decreases self.outcomes.len() - i,
        {
            outcomes.push(self.outcomes[i].clone());
            i += 1;
        }
        assert(outcomes_view(outcomes@) =~= outcomes_view(self.outcomes@));
        Market {
            id: self.id.clone(),
            question: self.question.clone(),
            outcomes,
            total_staked: self.total_staked,
            status: self.status,
            expiry_time: self.expiry_time,
            winning_outcome_id: clone_text(&self.winning_outcome_id),
            parent_id: clone_text(&self.parent_id),
            category: self.category,
        }
    }
}

impl Clone for Bet {
    fn clone(&self) -> (copy: Self)
        ensures
            copy@ == self@,
    {
        Bet {
            id: self.id.clone(),
            owner: self.owner,
            market_id: self.market_id.clone(),
            outcome_id: self.outcome_id.clone(),
            amount: self.amount,
            claimed: self.claimed,
        }
    }
}

/// Copies a list of bets.
pub fn clone_bets(bets: &Vec<Bet>) -> (copy: Vec<Bet>)
    ensures
        bets_view(copy@) == bets_view(bets@),
{
    let mut copy: Vec<Bet> = Vec::new();
    let mut i: usize = 0;
    while i < bets.len()
        invariant
            i <= bets.len(),
            copy.len() == i,
            forall|j: int| 0 <= j < i ==> copy[j]@ == bets[j]@,
        decreases bets.len() - i,
    {
        copy.push(bets[i].clone());
        i += 1;
    }
    assert(bets_view(copy@) =~= bets_view(bets@));
    copy
}

} // verus!
