use subscription_vault::errors::Error;
use subscription_vault::types::{Subscription, SubscriptionStatus};
use subscription_vault::vault::Vault;

/// Baseline creation timestamp used by test helpers.
const T0: u64 = 1_000;
/// Default billing interval for tests (30 days in seconds).
const INTERVAL: u64 = 30 * 24 * 60 * 60;

const PREPAID: i128 = 50_000_000; // 50 USDC

/// Helper: create a subscription with `usage_enabled = false` and a known
/// `prepaid_balance` for interval-charge tests.
fn setup(interval: u64) -> (Vault, u32, u64, u64) {
    let mut vault = Vault::new();
    let token: u64 = 1;
    let admin: u64 = 2;
    vault.init(token, admin, 1_000000i128).unwrap();

    let subscriber: u64 = 10;
    let merchant: u64 = 20;

    let id = vault
        .create_subscription(subscriber, merchant, 10_000_000i128, interval, false, None, T0)
        .unwrap();

    // Seed prepaid balance.
    let mut sub = vault.get_subscription(id).unwrap();
    sub.prepaid_balance = PREPAID;
    vault.set_subscription(id, sub).unwrap();

    (vault, id, subscriber, merchant)
}

/// Helper: create a subscription with `usage_enabled = true` and a known
/// `prepaid_balance` by writing the record back with funds.
fn setup_usage() -> (Vault, u32, u64, u64) {
    let mut vault = Vault::new();
    let token: u64 = 1;
    let admin: u64 = 2;
    vault.init(token, admin, 1_000000i128).unwrap();

    let subscriber: u64 = 10;
    let merchant: u64 = 20;

    let id = vault
        .create_subscription(subscriber, merchant, 10_000_000i128, INTERVAL, true, None, T0)
        .unwrap();

    // Seed prepaid balance by writing the subscription back with funds.
    let mut sub = vault.get_subscription(id).unwrap();
    sub.prepaid_balance = PREPAID;
    vault.set_subscription(id, sub).unwrap();

    (vault, id, subscriber, merchant)
}

/// Test: deposit_funds recovery flow - status transitions from
/// InsufficientBalance to Active.
#[test]
fn test_deposit_recovery_flow() {
    let mut vault = Vault::new();

    let token: u64 = 1;
    let admin: u64 = 2;
    vault.init(token, admin, 1_000000i128).unwrap();

    let subscriber: u64 = 10;
    let merchant: u64 = 20;
    let amount = 10_000_0000i128;
    let initial_balance = 5_000_0000i128;
    let deposit_amount = 10_000_0000i128;

    // Create subscription in InsufficientBalance status
    let sub = Subscription {
        subscriber,
        merchant,
        amount,
        interval_seconds: 30 * 24 * 60 * 60,
        last_payment_timestamp: 0,
        status: SubscriptionStatus::InsufficientBalance,
        prepaid_balance: initial_balance,
        usage_enabled: false,
        expiration: None,
    };

    // Store directly
    vault.set_subscription(0u32, sub).unwrap();

    // Verify initial status
    let initial = vault.get_subscription(0u32).unwrap();
    assert_eq!(initial.status, SubscriptionStatus::InsufficientBalance);
    assert_eq!(initial.prepaid_balance, initial_balance);

    // Deposit: recovery InsufficientBalance -> Active
    vault.deposit_funds(0u32, subscriber, deposit_amount).unwrap();

    // Verify status changed to Active (recovery successful)
    let after_deposit = vault.get_subscription(0u32).unwrap();
    assert_eq!(after_deposit.status, SubscriptionStatus::Active);
    assert_eq!(
        after_deposit.prepaid_balance,
        initial_balance + deposit_amount
    );
}

/// Test: charge_subscription behavior - insufficient balance triggers status change
#[test]
fn test_charge_subscription_behavior() {
    let mut vault = Vault::new();
    let interval = 30 * 24 * 60 * 60u64;
    let now = interval + 1;

    let token: u64 = 1;
    let admin: u64 = 2;
    vault.init(token, admin, 1i128).unwrap();

    let subscriber: u64 = 10;
    let merchant: u64 = 20;
    let amount = 10_000_0000i128;

    // Create subscription with insufficient balance
    let sub = Subscription {
        subscriber,
        merchant,
        amount,
        interval_seconds: interval,
        last_payment_timestamp: 0,
        status: SubscriptionStatus::Active,
        prepaid_balance: amount - 1,
        usage_enabled: false,
        expiration: None,
    };

    vault.set_subscription(0u32, sub).unwrap();

    let result = vault.charge_subscription(0u32, now);
    assert!(result.is_err());
    assert_eq!(result.unwrap_err(), Error::InsufficientBalance);

    // Verify status changed to InsufficientBalance
    let updated = vault.get_subscription(0u32).unwrap();
    assert_eq!(updated.status, SubscriptionStatus::InsufficientBalance);

    // CRITICAL INVARIANT: Balance unchanged
    assert_eq!(updated.prepaid_balance, amount - 1);
}

#[test]
fn test_min_topup_below_threshold() {
    let mut vault = Vault::new();

    let token: u64 = 1;
    let admin: u64 = 2;
    let subscriber: u64 = 10;
    let merchant: u64 = 20;
    let min_topup = 5_000000i128; // 5 USDC

    vault.init(token, admin, min_topup).unwrap();
    let sub_id = vault
        .create_subscription(subscriber, merchant, min_topup, 30 * 24 * 60 * 60, false, None, 0)
        .unwrap();

    let result = vault.deposit_funds(sub_id, subscriber, 4_999999);
    assert!(result.is_err());
}

#[test]
fn test_min_topup_exactly_at_threshold() {
    let mut vault = Vault::new();

    let token: u64 = 1;
    let admin: u64 = 2;
    let subscriber: u64 = 10;
    let merchant: u64 = 20;
    let min_topup = 5_000000i128; // 5 USDC

    vault.init(token, admin, min_topup).unwrap();

    let id = vault
        .create_subscription(subscriber, merchant, 10_000000i128, 30 * 24 * 60 * 60, false, None, 0)
        .unwrap();

    let result = vault.deposit_funds(id, subscriber, min_topup);
    assert!(result.is_ok());
}

#[test]
fn test_min_topup_above_threshold() {
    let mut vault = Vault::new();

    let token: u64 = 1;
    let admin: u64 = 2;
    let subscriber: u64 = 10;
    let merchant: u64 = 20;
    let min_topup = 5_000000i128; // 5 USDC
    let deposit_amount = 10_000000i128;

    vault.init(token, admin, min_topup).unwrap();

    let id = vault
        .create_subscription(
            subscriber,
            merchant,
            deposit_amount,
            30 * 24 * 60 * 60,
            false,
            None,
            0,
        )
        .unwrap();

    let result = vault.deposit_funds(id, subscriber, deposit_amount);
    assert!(result.is_ok());
}

/// Test: successful charge - exact balance gets deducted
#[test]
fn test_successful_charge_exact_balance() {
    let mut vault = Vault::new();
    let interval = 30 * 24 * 60 * 60u64;
    let now = interval + 1;

    let token: u64 = 1;
    let admin: u64 = 2;
    vault.init(token, admin, 1i128).unwrap();

    let merchant: u64 = 20;
    let amount = 10_000_0000i128;

    // Create subscription with exact balance
    let sub = Subscription {
        subscriber: 10,
        merchant,
        amount,
        interval_seconds: interval,
        last_payment_timestamp: 0,
        status: SubscriptionStatus::Active,
        prepaid_balance: amount,
        usage_enabled: false,
        expiration: None,
    };

    vault.set_subscription(0u32, sub).unwrap();

    let result = vault.charge_subscription(0u32, now);
    assert!(result.is_ok());

    // Verify balance is now 0
    let updated = vault.get_subscription(0u32).unwrap();
    assert_eq!(updated.prepaid_balance, 0i128);
}

/// Test: multiple failed charges don't corrupt state
#[test]
fn test_repeated_failed_charges_no_corruption() {
    let mut vault = Vault::new();
    let interval = 30 * 24 * 60 * 60u64;
    let now = interval + 1;

    let token: u64 = 1;
    let admin: u64 = 2;
    vault.init(token, admin, 1i128).unwrap();

    let subscriber: u64 = 10;
    let merchant: u64 = 20;
    let amount = 10_000_0000i128;
    let initial_balance = 5_000_0000i128;

    let sub = Subscription {
        subscriber,
        merchant,
        amount,
        interval_seconds: interval,
        last_payment_timestamp: 0,
        status: SubscriptionStatus::Active,
        prepaid_balance: initial_balance,
        usage_enabled: false,
        expiration: None,
    };

    vault.set_subscription(0u32, sub).unwrap();

    // First attempt - fails with InsufficientBalance
    let r1 = vault.charge_subscription(0u32, now);
    assert!(r1.is_err());

    // Verify balance unchanged after first failure (INVARIANT)
    let after_first = vault.get_subscription(0u32).unwrap();
    assert_eq!(after_first.prepaid_balance, initial_balance);
    assert_eq!(after_first.status, SubscriptionStatus::InsufficientBalance);

    // Second attempt - status is now InsufficientBalance, so charging is rejected
    let r2 = vault.charge_subscription(0u32, now);
    assert!(r2.is_err());

    // Third attempt - same, returns Err
    let r3 = vault.charge_subscription(0u32, now);
    assert!(r3.is_err());

    // Balance still unchanged (INVARIANT preserved)
    let final_state = vault.get_subscription(0u32).unwrap();
    assert_eq!(final_state.prepaid_balance, initial_balance);
}

#[test]
fn test_cancel_subscription_by_subscriber() {
    let mut vault = Vault::new();

    let token: u64 = 1;
    let admin: u64 = 2;
    let subscriber: u64 = 10;
    let merchant: u64 = 20;

    vault.init(token, admin, 1_000_000).unwrap();

    let sub_id = vault
        .create_subscription(subscriber, merchant, 1000, 86400, true, None, 0)
        .unwrap();

    vault.cancel_subscription(sub_id, subscriber).unwrap();

    let sub = vault.get_subscription(sub_id).unwrap();
    assert_eq!(sub.status, SubscriptionStatus::Cancelled);
}

#[test]
fn test_init_and_struct() {
    let mut vault = Vault::new();
    let token: u64 = 1;
    let admin: u64 = 2;
    vault.init(token, admin, 1_000000i128).unwrap();
    // Basic initialization test
}

#[test]
fn test_set_min_topup_by_admin() {
    let mut vault = Vault::new();

    let token: u64 = 1;
    let admin: u64 = 2;
    let initial_min = 1_000000i128;
    let new_min = 10_000000i128;

    vault.init(token, admin, initial_min).unwrap();
    assert_eq!(vault.get_min_topup().unwrap(), initial_min);

    vault.set_min_topup(admin, new_min).unwrap();
    assert_eq!(vault.get_min_topup().unwrap(), new_min);
}

#[test]
fn test_set_min_topup_unauthorized() {
    let mut vault = Vault::new();

    let token: u64 = 1;
    let admin: u64 = 2;
    let non_admin: u64 = 3;
    let min_topup = 1_000000i128;

    vault.init(token, admin, min_topup).unwrap();

    let result = vault.set_min_topup(non_admin, 5_000000);
    assert!(result.is_err());
}

/// Successful usage charge: debits prepaid_balance by the requested amount.
#[test]
fn test_usage_charge_debits_balance() {
    let (mut vault, id, _, _) = setup_usage();

    vault.charge_usage(id, 10_000_000i128).unwrap();

    let sub = vault.get_subscription(id).unwrap();
    assert_eq!(sub.prepaid_balance, PREPAID - 10_000_000);
    assert_eq!(sub.status, SubscriptionStatus::Active);
}

/// Draining the balance to zero transitions status to InsufficientBalance.
#[test]
fn test_usage_charge_drains_balance_to_insufficient() {
    let (mut vault, id, _, _) = setup_usage();

    vault.charge_usage(id, PREPAID).unwrap();

    let sub = vault.get_subscription(id).unwrap();
    assert_eq!(sub.prepaid_balance, 0);
    assert_eq!(sub.status, SubscriptionStatus::InsufficientBalance);
}

/// Rejected when usage_enabled is false.
#[test]
fn test_usage_charge_rejected_when_disabled() {
    let (mut vault, id, _, _) = setup(INTERVAL);

    let res = vault.charge_usage(id, 1_000_000i128);
    assert_eq!(res, Err(Error::UsageNotEnabled));
}

/// Rejected when usage_amount exceeds prepaid_balance.
#[test]
fn test_usage_charge_rejected_insufficient_balance() {
    let (mut vault, id, _, _) = setup_usage();

    let res = vault.charge_usage(id, PREPAID + 1);
    assert_eq!(res, Err(Error::InsufficientPrepaidBalance));

    // Balance unchanged.
    let sub = vault.get_subscription(id).unwrap();
    assert_eq!(sub.prepaid_balance, PREPAID);
}

/// Rejected when usage_amount is zero or negative.
#[test]
fn test_usage_charge_rejected_invalid_amount() {
    let (mut vault, id, _, _) = setup_usage();

    let res_zero = vault.charge_usage(id, 0i128);
    assert_eq!(res_zero, Err(Error::InvalidAmount));

    let res_neg = vault.charge_usage(id, -1i128);
    assert_eq!(res_neg, Err(Error::InvalidAmount));

    // Balance unchanged.
    let sub = vault.get_subscription(id).unwrap();
    assert_eq!(sub.prepaid_balance, PREPAID);
}

#[test]
fn test_withdraw_subscriber_funds() {
    let mut vault = Vault::new();

    let vault_admin: u64 = 2;
    let token: u64 = 1;
    let subscriber: u64 = 10;
    let merchant: u64 = 20;

    vault.init(token, vault_admin, 1000).unwrap();

    let sub_id = vault
        .create_subscription(subscriber, merchant, 1000, 86400, true, None, 0)
        .unwrap();

    vault.deposit_funds(sub_id, subscriber, 5000).unwrap();

    // Cancellation releases the whole remaining balance as a refund for the
    // host to transfer back to the subscriber.
    let refund = vault.cancel_subscription(sub_id, subscriber).unwrap();
    assert_eq!(refund, 5000);

    let sub = vault.get_subscription(sub_id).unwrap();
    assert_eq!(sub.prepaid_balance, 0);
}

#[test]
fn test_interval_boundary_one_second_early_fails() {
    let (mut vault, id, _, merchant) = setup(INTERVAL);

    // One second before the interval elapses: IntervalNotElapsed.
    let early = T0 + INTERVAL - 1;
    assert_eq!(
        vault.charge_subscription(id, early),
        Err(Error::IntervalNotElapsed)
    );
    let sub = vault.get_subscription(id).unwrap();
    assert_eq!(sub.prepaid_balance, PREPAID);
    assert_eq!(sub.last_payment_timestamp, T0);

    // At exactly last_payment_timestamp + interval_seconds: success, and the
    // stored time becomes that exact value.
    let due = T0 + INTERVAL;
    vault.charge_subscription(id, due).unwrap();
    let sub = vault.get_subscription(id).unwrap();
    assert_eq!(sub.last_payment_timestamp, due);
    assert_eq!(sub.prepaid_balance, PREPAID - 10_000_000);
    assert_eq!(vault.get_merchant_balance(merchant), 10_000_000);
}

#[test]
fn test_replay_second_charge_same_timestamp() {
    let (mut vault, id, _, merchant) = setup(INTERVAL);

    let now = T0 + INTERVAL;
    // First charge succeeds.
    vault.charge_subscription(id, now).unwrap();

    // Second charge at the same timestamp is a replay; exactly one debit.
    assert_eq!(vault.charge_subscription(id, now), Err(Error::Replay));
    let sub = vault.get_subscription(id).unwrap();
    assert_eq!(sub.prepaid_balance, PREPAID - 10_000_000);
    assert_eq!(vault.get_merchant_balance(merchant), 10_000_000);
}

#[test]
fn test_charge_expired_subscription_rejected() {
    let mut vault = Vault::new();
    vault.init(1, 2, 1i128).unwrap();

    let expiration = T0 + INTERVAL; // expires exactly when the charge is due
    let id = vault
        .create_subscription(10, 20, 1000, INTERVAL, false, Some(expiration), T0)
        .unwrap();
    vault.deposit_funds(id, 10, 5000).unwrap();

    assert_eq!(
        vault.charge_subscription(id, expiration),
        Err(Error::SubscriptionExpired)
    );
    // No mutation.
    let sub = vault.get_subscription(id).unwrap();
    assert_eq!(sub.prepaid_balance, 5000);
    assert_eq!(sub.status, SubscriptionStatus::Active);
}

#[test]
fn test_charge_before_expiration_succeeds() {
    let mut vault = Vault::new();
    vault.init(1, 2, 1i128).unwrap();

    let expiration = T0 + 2 * INTERVAL;
    let id = vault
        .create_subscription(10, 20, 1000, INTERVAL, false, Some(expiration), T0)
        .unwrap();
    vault.deposit_funds(id, 10, 5000).unwrap();

    vault.charge_subscription(id, T0 + INTERVAL).unwrap();
    let sub = vault.get_subscription(id).unwrap();
    assert_eq!(sub.prepaid_balance, 4000);
}

#[test]
fn test_create_subscription_rejects_non_positive_amount() {
    let mut vault = Vault::new();
    vault.init(1, 2, 1i128).unwrap();

    assert_eq!(
        vault.create_subscription(10, 20, 0, INTERVAL, false, None, T0),
        Err(Error::InvalidAmount)
    );
    assert_eq!(
        vault.create_subscription(10, 20, -5, INTERVAL, false, None, T0),
        Err(Error::InvalidAmount)
    );
    // Nothing was created.
    assert_eq!(vault.get_subscription_count(), 0);
}

#[test]
fn test_deposit_overflow_fails_closed() {
    let mut vault = Vault::new();
    vault.init(1, 2, 1i128).unwrap();

    let id = vault
        .create_subscription(10, 20, 1000, INTERVAL, false, None, T0)
        .unwrap();
    let mut sub = vault.get_subscription(id).unwrap();
    sub.prepaid_balance = i128::MAX;
    vault.set_subscription(id, sub).unwrap();

    assert_eq!(vault.deposit_funds(id, 10, 1), Err(Error::Overflow));
    assert_eq!(vault.get_subscription(id).unwrap().prepaid_balance, i128::MAX);
}

#[test]
fn test_deposit_to_cancelled_subscription_rejected() {
    let mut vault = Vault::new();
    vault.init(1, 2, 1i128).unwrap();

    let id = vault
        .create_subscription(10, 20, 1000, INTERVAL, false, None, T0)
        .unwrap();
    vault.cancel_subscription(id, 10).unwrap();

    assert_eq!(
        vault.deposit_funds(id, 10, 5000),
        Err(Error::InvalidStatusTransition)
    );
}

#[test]
fn test_deposit_by_wrong_subscriber_unauthorized() {
    let mut vault = Vault::new();
    vault.init(1, 2, 1i128).unwrap();

    let id = vault
        .create_subscription(10, 20, 1000, INTERVAL, false, None, T0)
        .unwrap();

    assert_eq!(vault.deposit_funds(id, 11, 5000), Err(Error::Unauthorized));
}

#[test]
fn test_charge_zero_interval_always_due_after_advance() {
    let mut vault = Vault::new();
    vault.init(1, 2, 1i128).unwrap();

    // A zero interval degenerates to "always due": any strictly later
    // timestamp can be charged, the same timestamp is a replay.
    let id = vault
        .create_subscription(10, 20, 1000, 0, false, None, T0)
        .unwrap();
    vault.deposit_funds(id, 10, 5000).unwrap();

    assert_eq!(vault.charge_subscription(id, T0), Err(Error::Replay));
    vault.charge_subscription(id, T0 + 1).unwrap();
    vault.charge_subscription(id, T0 + 2).unwrap();
    let sub = vault.get_subscription(id).unwrap();
    assert_eq!(sub.prepaid_balance, 3000);
    assert_eq!(sub.last_payment_timestamp, T0 + 2);
}
