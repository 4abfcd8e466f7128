//! Identities, market categories and the closed sets of operations and notifications.

use vstd::prelude::*;

verus! {

/// The verified identity of a participant: a 32-byte account hash, compared by equality.
#[derive(Clone, Copy, Debug)]
pub struct Owner(pub [u8; 32]);

impl PartialEq for Owner {
    fn eq(&self, other: &Self) -> (same: bool) {
        let mut i: usize = 0;
        while i < 32
            invariant
                i <= 32,
                forall|j: int| 0 <= j < i ==> self.0[j] == other.0[j],
            decreases 32 - i,
        {
            if self.0[i] != other.0[i] {
                return false;
            }
            i += 1;
        }
        proof {
            vstd::array::axiom_array_ext_equal(self.0, other.0);
            assert(self.0 =~= other.0);
        }
        true
    }
}

impl vstd::std_specs::cmp::PartialEqSpecImpl for Owner {
    open spec fn obeys_eq_spec() -> bool {
        true
    }

    open spec fn eq_spec(&self, other: &Self) -> bool {
        *self == *other
    }
}

impl Eq for Owner {

}

/// What instantiation needs: the identity that may resolve markets.
#[derive(Clone, Copy, Debug)]
pub struct InstantiationArgument {
    pub admin: Owner,
}

/// Classification of a market.
#[derive(Clone, Copy, Debug, PartialEq, Eq, Structural)]
pub enum MarketCategory {
    Crypto,
    Politics,
    Economics,
    Tech,
    Sports,
    Other,
}

/// The write operations.
#[derive(Debug)]
pub enum Operation {
    /// Create a new prediction market.
    CreateMarket {
        question: String,
        outcome_names: Vec<String>,
        expiry_time: u64,
        category: MarketCategory,
        /// The market this one derives from, if any.
        parent_id: Option<String>,
    },
    /// Stake `amount` on one outcome of a market.
    PlaceBet { market_id: String, outcome_id: String, amount: u64 },
    /// Declare the winning outcome of a market (admin only).
    ResolveMarket { market_id: String, winning_outcome_id: String },
    /// Withdraw the caller's share of a resolved market.
    ClaimWinnings { market_id: String },
}

/// Notifications sent to other chains.
#[derive(Debug)]
pub enum Message {
    /// A market was resolved.
    MarketResolved { market_id: String, winning_outcome_id: String },
}

} // verus!
