//! The ways in which an operation fails.

use vstd::prelude::*;

verus! {

/// The error type of the `bcs` crate, opaque here.
#[verifier::external_type_specification]
#[verifier::external_body]
pub struct ExBcsError(bcs::Error);

/// Why an operation was refused. A refused operation changes nothing.
#[derive(Debug)]
pub enum CascadeProtocolError {
    /// No market has the given identifier.
    MarketNotFound(String),
    /// The market's expiry time has passed.
    MarketExpired,
    /// The market is not active.
    MarketNotActive,
    /// The market is not resolved.
    MarketNotResolved,
    /// The market has no outcome of the given identifier.
    OutcomeNotFound(String),
    /// The amount to pay out is less than what a payment needs.
    InsufficientFunds { required: u64, available: u64 },
    /// The caller is unknown, or is not the admin where the admin is required.
    Unauthorized,
    /// The bet was already claimed.
    AlreadyClaimed,
    /// The caller has no unclaimed bet on the winning outcome of the market.
    BetNotFound,
    /// The amount of a bet must be greater than zero.
    InvalidBetAmount,
    /// A market must have at least two outcomes.
    InvalidOutcomeCount,
    /// The expiry time of a market must lie in the future.
    InvalidExpiryTime,
    /// The caller did not bet on the winning outcome.
    NotWinningOutcome,
    /// Bytes that are no stored value, or a value too large to store.
    BcsError(bcs::Error),
}

/// The model of a [`CascadeProtocolError`].
pub enum ErrorView {
    MarketNotFound(Seq<char>),
    MarketExpired,
    MarketNotActive,
    MarketNotResolved,
    OutcomeNotFound(Seq<char>),
    InsufficientFunds { required: u64, available: u64 },
    Unauthorized,
    AlreadyClaimed,
    BetNotFound,
    InvalidBetAmount,
    InvalidOutcomeCount,
    InvalidExpiryTime,
    NotWinningOutcome,
    BcsError,
}

impl View for CascadeProtocolError {
    type V = ErrorView;

    open spec fn view(&self) -> ErrorView {
        match self {
            CascadeProtocolError::MarketNotFound(id) => ErrorView::MarketNotFound(id@),
            CascadeProtocolError::MarketExpired => ErrorView::MarketExpired,
            CascadeProtocolError::MarketNotActive => ErrorView::MarketNotActive,
            CascadeProtocolError::MarketNotResolved => ErrorView::MarketNotResolved,
            CascadeProtocolError::OutcomeNotFound(id) => ErrorView::OutcomeNotFound(id@),
            CascadeProtocolError::InsufficientFunds { required, available } => {
                ErrorView::InsufficientFunds { required: *required, available: *available }
            },
            CascadeProtocolError::Unauthorized => ErrorView::Unauthorized,
            CascadeProtocolError::AlreadyClaimed => ErrorView::AlreadyClaimed,
            CascadeProtocolError::BetNotFound => ErrorView::BetNotFound,
            CascadeProtocolError::InvalidBetAmount => ErrorView::InvalidBetAmount,
            CascadeProtocolError::InvalidOutcomeCount => ErrorView::InvalidOutcomeCount,
            CascadeProtocolError::InvalidExpiryTime => ErrorView::InvalidExpiryTime,
            CascadeProtocolError::NotWinningOutcome => ErrorView::NotWinningOutcome,
            CascadeProtocolError::BcsError(_) => ErrorView::BcsError,
        }
    }
}

} // verus!
