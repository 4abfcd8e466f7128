//! Accounting and settlement engine of a pari-mutuel prediction market.
//!
//! Participants create markets with two or more outcomes, stake value on an outcome, an
//! admin resolves a market, and winners withdraw a share of the pooled stakes in
//! proportion to their stake on the winning outcome.

pub mod contract;
pub mod error;
pub mod laws;
pub mod ledger;
pub mod lookup;
pub mod market;
pub mod msg;
pub mod persist;
pub mod state;
pub mod text;
pub mod wellformed;

pub use contract::{Account, CascadeProtocolContract, ContractRuntime, Transfer};
pub use error::CascadeProtocolError;
pub use ledger::{CascadeProtocol, MarketBets, OwnerBets};
pub use msg::{InstantiationArgument, MarketCategory, Message, Operation, Owner};
pub use state::{Bet, Market, MarketStatus, Outcome};
