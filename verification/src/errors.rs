//! Error taxonomy for the vault, with a stable numeric code per variant.
//!
//! Batch operations report outcomes as plain integers, so the mapping from
//! variant to code is an explicit, exhaustive table rather than anything
//! derived from declaration order.

use vstd::prelude::*;

verus! {

/// Every failure the vault can report. No vault operation panics on a
/// business condition; each one is represented here.
#[derive(Clone, Copy, Debug, PartialEq, Eq, Structural)]
pub enum Error {
    /// The caller is not authorized to perform this action.
    Unauthorized,
    /// Action requires administrative privileges.
    NotAdmin,
    /// Generic resource not found.
    NotFound,
    /// The specific subscription id does not exist in storage.
    SubscriptionNotFound,
    /// Contract configuration (admin, token, minimum top-up) is missing.
    ConfigNotFound,
    /// A provided argument is malformed or invalid.
    InvalidArguments,
    /// Amount must be greater than zero and valid.
    InvalidAmount,
    /// Billing interval must be within allowed bounds.
    InvalidInterval,
    /// The requested status transition is not allowed by the state machine.
    InvalidStatusTransition,
    /// The prepaid balance cannot cover the interval charge.
    InsufficientBalance,
    /// Deposit amount is below the required minimum threshold.
    BelowMinimumTopup,
    /// Withdrawal failed due to insufficient merchant balance.
    InsufficientMerchantBalance,
    /// Charge attempted before the billing interval has elapsed.
    IntervalNotElapsed,
    /// Subscription is not in an `Active` state.
    NotActive,
    /// Subscription has reached its expiration timestamp.
    SubscriptionExpired,
    /// A charge for this billing period was already settled.
    Replay,
    /// Usage-based charge attempted with `usage_enabled = false`.
    UsageNotEnabled,
    /// Usage-based charge amount exceeds the available prepaid balance.
    InsufficientPrepaidBalance,
    /// Recovery amount is zero or negative.
    InvalidRecoveryAmount,
    /// The contract has not been properly initialized or configured.
    NotConfigured,
    /// Provided configuration values are invalid.
    InvalidConfig,
    /// Arithmetic overflow in a computation.
    Overflow,
    /// Arithmetic underflow, or a balance would have gone negative.
    Underflow,
    /// The id allocator is exhausted; no more subscriptions can be created.
    SubscriptionLimitReached,
    /// The contract is in emergency stop mode.
    ContractStopped,
}

/// The stable numeric code of an error, as a spec-level table.
pub open spec fn spec_error_code(e: Error) -> u32 {
    match e {
        Error::Unauthorized => 401,
        Error::NotAdmin => 403,
        Error::NotFound => 404,
        Error::SubscriptionNotFound => 405,
        Error::ConfigNotFound => 406,
        Error::InvalidArguments => 400,
        Error::InvalidAmount => 407,
        Error::InvalidInterval => 408,
        Error::InvalidStatusTransition => 409,
        Error::InsufficientBalance => 402,
        Error::BelowMinimumTopup => 410,
        Error::InsufficientMerchantBalance => 411,
        Error::IntervalNotElapsed => 1001,
        Error::NotActive => 1002,
        Error::SubscriptionExpired => 1003,
        Error::Replay => 1004,
        Error::UsageNotEnabled => 1005,
        Error::InsufficientPrepaidBalance => 1006,
        Error::InvalidRecoveryAmount => 1007,
        Error::NotConfigured => 1101,
        Error::InvalidConfig => 1102,
        Error::Overflow => 1103,
        Error::Underflow => 1104,
        Error::ContractStopped => 1105,
        Error::SubscriptionLimitReached => 429,
    }
}

impl Error {
    /// Returns the numeric code for this error (for batch result reporting).
    pub fn to_code(self) -> (code: u32)
        ensures
            code == spec_error_code(self),
    {
        match self {
            Error::Unauthorized => 401,
            Error::NotAdmin => 403,
            Error::NotFound => 404,
            Error::SubscriptionNotFound => 405,
            Error::ConfigNotFound => 406,
            Error::InvalidArguments => 400,
            Error::InvalidAmount => 407,
            Error::InvalidInterval => 408,
            Error::InvalidStatusTransition => 409,
            Error::InsufficientBalance => 402,
            Error::BelowMinimumTopup => 410,
            Error::InsufficientMerchantBalance => 411,
            Error::IntervalNotElapsed => 1001,
            Error::NotActive => 1002,
            Error::SubscriptionExpired => 1003,
            Error::Replay => 1004,
            Error::UsageNotEnabled => 1005,
            Error::InsufficientPrepaidBalance => 1006,
            Error::InvalidRecoveryAmount => 1007,
            Error::NotConfigured => 1101,
            Error::InvalidConfig => 1102,
            Error::Overflow => 1103,
            Error::Underflow => 1104,
            Error::ContractStopped => 1105,
            Error::SubscriptionLimitReached => 429,
        }
    }
}

/// No two error variants share a wire-level code: the batch result's
/// numeric `error_code` identifies the error unambiguously. Success is
/// reported as code 0, which no error maps to.
pub proof fn lemma_error_codes_injective(a: Error, b: Error)
    ensures
        spec_error_code(a) != 0,
        spec_error_code(a) == spec_error_code(b) ==> a == b,
{
}

} // verus!
