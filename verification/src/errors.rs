//! Business-rule failures surfaced by the bridge core.

use vstd::prelude::*;

verus! {

/// Every way an operation of this crate can be rejected.
///
/// All variants are non-retriable business-rule failures; none is transient.
/// Arithmetic that would overflow is rejected with [`InvalidAmount`]
/// (fail closed) rather than wrapped, since wrapping could under-reserve
/// funds.
///
/// [`InvalidAmount`]: ContractError::InvalidAmount
#[derive(Clone, Copy, Debug, PartialEq, Eq, Structural)]
pub enum ContractError {
    /// `configure_rate_limit` was given a percentage above `POINTS`.
    PercentageShouldBeLessThanOrEqualToPOINTS,
    /// The requested withdrawal would push the balance below the reserve.
    ExceedsWithdrawLimit,
    /// The attested protocols do not match the configured sources.
    ProtocolMismatch,
    /// Recovery verification was asked for while no removal is pending.
    NoProposalForRemovalExists,
    /// The decoded method is none the dispatcher knows.
    UnknownMessageType,
    /// A withdrawal instruction came from an identity other than the
    /// remote asset manager.
    OnlyICONAssetManager,
    /// A protocol reconfiguration came from an identity other than the
    /// remote governance.
    OnlyICONGovernance,
    /// A deposit revert came from an identity other than this bridge's
    /// own canonical network address.
    OnlyCallService,
    /// An address field is not a well-formed address string.
    InvalidAddress,
    /// The amount is zero, below the minimum an operation accepts.
    AmountIsLessThanMinimumAmount,
    /// The amount cannot be processed: it does not fit the token
    /// primitive, or an intermediate product would overflow.
    InvalidAmount,
    /// No rate limit has been configured for the asset.
    Uninitialized,
}

} // verus!
