use vstd::prelude::*;

verus! {

/// Every way in which an operation of the auto-trading contract can be refused.
#[derive(Clone, Copy, Debug, PartialEq, Eq, Structural)]
pub enum AutoTradeError {
    /// An amount that must be positive is not.
    InvalidAmount,
    /// No signal is stored under the id.
    SignalNotFound,
    /// The ledger time is past the signal's expiry.
    SignalExpired,
    /// The user has not authorized the contract to make this trade.
    Unauthorized,
    /// The user's balance does not cover the amount.
    InsufficientBalance,
    /// The trade would give one asset too large a share of the portfolio.
    PositionLimitExceeded,
    /// The user has made as many filled trades today as allowed.
    DailyTradeLimitExceeded,
    /// No strategy is stored under the id.
    StrategyNotFound,
    /// The strategy is paused.
    StrategyNotActive,
    /// The strategy's next purchase is not due yet, or it has ended.
    PurchaseNotDue,
    /// The oracle has no positive price for the asset.
    PriceUnavailable,
    /// A custom period of zero seconds.
    InvalidFrequency,
}

} // verus!
