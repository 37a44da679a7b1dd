//! Data model: subscription records, statuses, and the plain result types
//! that batch operations and queries hand back.
//!
//! Principals (subscribers, merchants, admins, recipients) are identified by
//! plain 64-bit values. The host environment owns real account addresses and
//! maps them to these identifiers at the boundary; the vault's rules only
//! ever compare identities for equality.

use vstd::prelude::*;

verus! {

/// The lifecycle state of a subscription.
///
/// Statuses change only through the transition table in
/// [`crate::state_machine`]:
///
/// - `Active` can move to `Paused`, `Cancelled` or `InsufficientBalance`;
/// - `Paused` can move to `Active` or `Cancelled`;
/// - `InsufficientBalance` can move to `Active` or `Cancelled`;
/// - `Cancelled` is terminal;
/// - every status can "move" to itself (idempotent no-op).
#[derive(Clone, Copy, Debug, PartialEq, Eq, Structural)]
pub enum SubscriptionStatus {
    /// Subscription is active and ready for charging.
    Active,
    /// Subscription is temporarily paused, no charges processed.
    Paused,
    /// Subscription is permanently cancelled (terminal state).
    Cancelled,
    /// Subscription failed due to insufficient balance for charging.
    InsufficientBalance,
}

/// One recurring-payment agreement between a subscriber and a merchant.
///
/// The `status` field is managed by the state machine; the vault never
/// exposes a direct status assignment.
#[derive(Clone, Copy, Debug, PartialEq, Eq, Structural)]
pub struct Subscription {
    /// The principal who funds the subscription and controls its lifecycle.
    pub subscriber: u64,
    /// The principal credited by successful charges.
    pub merchant: u64,
    /// The fixed charge per billing interval; always positive.
    pub amount: i128,
    /// Billing period length in seconds. A zero interval degenerates to
    /// "always due".
    pub interval_seconds: u64,
    /// Time of the last successful interval charge (creation time initially).
    /// Only ever increases, and only as a side effect of a successful charge.
    pub last_payment_timestamp: u64,
    /// Current lifecycle state. Modified only through state machine
    /// transitions.
    pub status: SubscriptionStatus,
    /// The subscriber's funded balance held by the vault; never negative.
    pub prepaid_balance: i128,
    /// Whether on-demand usage charges are permitted. Fixed at creation.
    pub usage_enabled: bool,
    /// Optional timestamp after which no more charges are allowed. `None`
    /// means the subscription runs indefinitely.
    pub expiration: Option<u64>,
}

impl Subscription {
    /// Record well-formedness: the prepaid balance is never negative and the
    /// per-interval charge is positive. Every record the vault stores
    /// satisfies this.
    pub open spec fn wf(self) -> bool {
        &&& self.prepaid_balance >= 0
        &&& self.amount > 0
    }
}

/// Result of charging one subscription in a batch.
#[derive(Clone, Copy, Debug, PartialEq, Eq, Structural)]
pub struct BatchChargeResult {
    /// True if the charge succeeded.
    pub success: bool,
    /// 0 on success; otherwise the failed charge's error code
    /// (see [`crate::errors::Error::to_code`]).
    pub error_code: u32,
}

/// Result of one entry in a batch merchant withdrawal.
#[derive(Clone, Copy, Debug, PartialEq, Eq, Structural)]
pub struct BatchWithdrawResult {
    /// True if the withdrawal succeeded.
    pub success: bool,
    /// 0 on success; otherwise the failed withdrawal's error code.
    pub error_code: u32,
}

/// The reason stranded funds are being recovered by the admin.
#[derive(Clone, Copy, Debug, PartialEq, Eq, Structural)]
pub enum RecoveryReason {
    /// Funds sent to the vault by mistake (no associated subscription).
    AccidentalTransfer,
    /// Funds from deprecated flows or logic errors.
    DeprecatedFlow,
    /// Funds from cancelled subscriptions with unreachable subscribers.
    UnreachableSubscriber,
}

/// Audit record of one admin recovery of stranded funds.
///
/// The vault validates a recovery and hands this record back; the host
/// performs the actual value transfer and publishes the event.
#[derive(Clone, Copy, Debug, PartialEq, Eq, Structural)]
pub struct RecoveryEvent {
    /// The admin who authorized the recovery.
    pub admin: u64,
    /// The destination receiving the recovered funds.
    pub recipient: u64,
    /// The amount of funds recovered; always positive.
    pub amount: i128,
    /// The documented reason for recovery.
    pub reason: RecoveryReason,
    /// Timestamp when recovery was executed.
    pub timestamp: u64,
}

/// Result of computing next-charge information for a subscription.
#[derive(Clone, Copy, Debug, PartialEq, Eq, Structural)]
pub struct NextChargeInfo {
    /// Estimated timestamp of the next charge attempt:
    /// `last_payment_timestamp + interval_seconds`, saturating at the
    /// largest 64-bit value.
    pub next_charge_timestamp: u64,
    /// Whether a charge is actually expected: true for `Active` (a charge
    /// will be attempted) and `InsufficientBalance` (retried after funding),
    /// false for `Paused` and `Cancelled`.
    pub is_charge_expected: bool,
}

/// One page of subscription ids belonging to a subscriber.
#[derive(Clone, Debug, PartialEq, Eq)]
pub struct SubscriptionPage {
    /// Matching subscription ids, in store order (creation order for ids
    /// issued by the allocator).
    pub subscription_ids: Vec<u32>,
    /// Whether more matching ids exist past this page.
    pub has_next: bool,
}

} // verus!
