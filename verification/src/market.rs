//! What a single market knows: its outcomes, the conservation of stakes, odds and payouts.

use vstd::prelude::*;
use crate::lookup::{distinct, is_first, lemma_position_absent, lemma_position_found, position};
use crate::state::{Market, MarketStatus, MarketView, OutcomeView, outcomes_view};

verus! {

/// The sum of the stakes on a run of outcomes.
pub open spec fn stake_sum(outcomes: Seq<OutcomeView>) -> nat
    decreases outcomes.len(),
{
    if outcomes.len() == 0 {
        0
    } else {
        stake_sum(outcomes.drop_last()) + outcomes.last().total_staked as nat
    }
}

/// The identifiers of a run of outcomes, in order.
pub open spec fn outcome_ids(outcomes: Seq<OutcomeView>) -> Seq<Seq<char>> {
    Seq::new(outcomes.len(), |i: int| outcomes[i].id)
}

/// The outcome `o` with `amount` more staked on it.
pub open spec fn outcome_with_stake(o: OutcomeView, amount: u64) -> OutcomeView {
    OutcomeView { total_staked: (o.total_staked + amount) as u64, ..o }
}

impl MarketView {
    /// The position of the outcome called `id`, if the market has one.
    pub open spec fn outcome_position(self, id: Seq<char>) -> Option<int> {
        position(outcome_ids(self.outcomes), id)
    }

    /// The invariant of a market: at least two outcomes, no outcome identifier twice,
    /// the market's stake is the sum of its outcomes' stakes, and a winner is named
    /// exactly when the market is resolved, and is then one of the outcomes.
    pub open spec fn wf(self) -> bool {
        &&& self.outcomes.len() >= 2
        &&& distinct(outcome_ids(self.outcomes))
        &&& self.total_staked as nat == stake_sum(self.outcomes)
        &&& (self.winning_outcome_id is Some <==> self.status == MarketStatus::Resolved)
        &&& (self.winning_outcome_id matches Some(w) ==> self.outcome_position(w) is Some)
    }

    /// The market after `amount` more is staked on its outcome at position `i`.
    pub open spec fn with_stake(self, i: int, amount: u64) -> MarketView {
        MarketView {
            outcomes: self.outcomes.update(i, outcome_with_stake(self.outcomes[i], amount)),
            total_staked: (self.total_staked + amount) as u64,
            ..self
        }
    }

    /// The market after it is resolved in favour of `winner`.
    pub open spec fn resolved(self, winner: Seq<char>) -> MarketView {
        MarketView {
            status: MarketStatus::Resolved,
            winning_outcome_id: Some(winner),
            ..self
        }
    }

    /// The odds of the outcome called `id` as a fraction: the whole pool over the stake
    /// on that outcome; zero over one where the outcome is unknown or nothing is staked on it.
    pub open spec fn odds(self, id: Seq<char>) -> (u64, u64) {
        match self.outcome_position(id) {
            Some(i) => if self.outcomes[i].total_staked == 0 {
                (0u64, 1u64)
            } else {
                (self.total_staked, self.outcomes[i].total_staked)
            },
            None => (0u64, 1u64),
        }
    }

    /// The share of the pool owed to a stake of `amount` on the outcome at position `i`,
    /// should that outcome win: `amount * pool / stake on the outcome`, rounded down, and
    /// zero where nothing is staked on the outcome.
    pub open spec fn payout(self, amount: u64, i: int) -> nat {
        if self.outcomes[i].total_staked > 0 {
            ((amount as nat * self.total_staked as nat) / (self.outcomes[i].total_staked as nat))
        } else {
            0
        }
    }
}

/// No single stake exceeds the sum.
pub proof fn lemma_stake_sum_bounds(outcomes: Seq<OutcomeView>, i: int)
    requires
        0 <= i < outcomes.len(),
    ensures
        outcomes[i].total_staked <= stake_sum(outcomes),
    decreases outcomes.len(),
{
    if i < outcomes.len() - 1 {
        lemma_stake_sum_bounds(outcomes.drop_last(), i);
    }
}

/// Replacing one outcome changes the sum by the difference of the two stakes.
pub proof fn lemma_stake_sum_update(outcomes: Seq<OutcomeView>, i: int, o: OutcomeView)
    requires
        0 <= i < outcomes.len(),
    ensures
        stake_sum(outcomes.update(i, o)) + outcomes[i].total_staked == stake_sum(outcomes)
            + o.total_staked,
    decreases outcomes.len(),
{
    let updated = outcomes.update(i, o);
    if i < outcomes.len() - 1 {
        lemma_stake_sum_update(outcomes.drop_last(), i, o);
        assert(updated.drop_last() =~= outcomes.drop_last().update(i, o));
    } else {
        assert(updated.drop_last() =~= outcomes.drop_last());
    }
}

/// The sum of stakes that are all zero is zero.
pub proof fn lemma_stake_sum_zero(outcomes: Seq<OutcomeView>)
    requires
        forall|i: int| 0 <= i < outcomes.len() ==> (#[trigger] outcomes[i]).total_staked == 0,
    ensures
        stake_sum(outcomes) == 0,
    decreases outcomes.len(),
{
    if outcomes.len() > 0 {
        assert forall|i: int| 0 <= i < outcomes.drop_last().len() implies (
        #[trigger] outcomes.drop_last()[i]).total_staked == 0 by {
            assert(outcomes[i].total_staked == 0);
        }
        lemma_stake_sum_zero(outcomes.drop_last());
        assert(outcomes.last() == outcomes[outcomes.len() - 1]);
    }
}

/// Staking on one outcome of a well-formed market leaves it well-formed.
pub proof fn lemma_with_stake_wf(m: MarketView, i: int, amount: u64)
    requires
        m.wf(),
        0 <= i < m.outcomes.len(),
        m.total_staked + amount <= u64::MAX,
    ensures
        m.with_stake(i, amount).wf(),
        m.outcomes[i].total_staked + amount <= u64::MAX,
        outcome_ids(m.with_stake(i, amount).outcomes) == outcome_ids(m.outcomes),
{
    lemma_stake_sum_bounds(m.outcomes, i);
    lemma_stake_sum_update(m.outcomes, i, outcome_with_stake(m.outcomes[i], amount));
    assert(outcome_ids(m.with_stake(i, amount).outcomes) =~= outcome_ids(m.outcomes));
}

/// The share of a stake never exceeds 128 bits.
pub proof fn lemma_payout_fits(m: MarketView, amount: u64, i: int)
    requires
        0 <= i < m.outcomes.len(),
    ensures
        m.payout(amount, i) <= u128::MAX,
        amount as nat * m.total_staked as nat <= u128::MAX,
{
    let a = amount as nat;
    let t = m.total_staked as nat;
    assert(a * t <= 0xffff_ffff_ffff_ffff * 0xffff_ffff_ffff_ffff) by (nonlinear_arith)
        requires
            a <= 0xffff_ffff_ffff_ffff,
            t <= 0xffff_ffff_ffff_ffff,
    ;
    let s = m.outcomes[i].total_staked as nat;
    if s > 0 {
        assert((a * t) / s <= a * t) by (nonlinear_arith)
            requires
                s > 0,
        ;
    }
}

impl Market {
    /// Finds the outcome called `id`.
    pub fn find_outcome(&self, id: &String) -> (found: Option<usize>)
        ensures
            match found {
                Some(i) => self@.outcome_position(id@) == Some(i as int) && i < self.outcomes.len(),
                None => self@.outcome_position(id@) is None,
            },
    {
        let ghost ids = outcome_ids(self@.outcomes);
        let mut i: usize = 0;
        while i < self.outcomes.len()
            invariant
                i <= self.outcomes.len(),
                ids == outcome_ids(self@.outcomes),
                forall|j: int| 0 <= j < i ==> ids[j] != id@,
            decreases self.outcomes.len() - i,
        {
            if self.outcomes[i].id == *id {
                proof {
                    assert(is_first(ids, id@, i as int));
                    lemma_position_found(ids, id@, i as int);
                }
                return Some(i);
            }
            i += 1;
        }
        proof {
            lemma_position_absent(ids, id@);
        }
        None
    }

    /// The odds of an outcome as an exact fraction `(pool, stake on the outcome)`;
    /// `(0, 1)` where the outcome is unknown or nothing is staked on it.
    pub fn calculate_odds(&self, outcome_id: &str) -> (odds: (u64, u64))
        ensures
            odds == self@.odds(outcome_id@),
    {
        let wanted = outcome_id.to_owned();
        match self.find_outcome(&wanted) {
            Some(i) => {
                if self.outcomes[i].total_staked == 0 {
                    (0, 1)
                } else {
                    (self.total_staked, self.outcomes[i].total_staked)
                }
            },
            None => (0, 1),
        }
    }

    /// Stakes `amount` more on the outcome at position `i`.
    pub fn add_stake(&mut self, i: usize, amount: u64)
        requires
            i < old(self).outcomes.len(),
            old(self).outcomes[i as int].total_staked + amount <= u64::MAX,
            old(self).total_staked + amount <= u64::MAX,
        ensures
            final(self)@ == old(self)@.with_stake(i as int, amount),
    {
        let staked = self.outcomes[i].total_staked;
        self.outcomes[i].total_staked = staked + amount;
        self.total_staked = self.total_staked + amount;
        assert(outcomes_view(self.outcomes@) =~= old(self)@.with_stake(i as int, amount).outcomes);
    }

    /// The share of the pool owed to a stake of `amount` on the outcome at position `i`.
    pub fn payout(&self, amount: u64, i: usize) -> (share: u128)
        requires
            i < self.outcomes.len(),
        ensures
            share == self@.payout(amount, i as int),
    {
        proof {
            lemma_payout_fits(self@, amount, i as int);
        }
        let staked = self.outcomes[i].total_staked;
        if staked > 0 {
            (amount as u128) * (self.total_staked as u128) / (staked as u128)
        } else {
            0
        }
    }
}

} // verus!
