//! The charge engine: interval charges, usage charges and batch billing.
//!
//! Every gate and every mutation a charge can make is written down first as
//! a spec-level decision over the stored record, so that the replay and
//! non-destructive-failure guarantees are facts about the transition system,
//! not just about one code path.

use vstd::prelude::*;

use crate::errors::{spec_error_code, Error};
use crate::safe_math::safe_sub_balance;
use crate::state_machine::transition_allowed;
use crate::types::{BatchChargeResult, Subscription, SubscriptionStatus};
use crate::vault::{lemma_id_found, lemma_id_update, SubEntry, Vault};

verus! {

/// Whether a subscription may no longer be charged because its expiration
/// has passed. `None` means no time limit.
pub open spec fn is_expired(s: Subscription, now: u64) -> bool {
    match s.expiration {
        Some(e) => now >= e,
        None => false,
    }
}

/// The interval charge decision over a stored record, gates in order:
///
/// 1. the status must be `Active`, else `NotActive`;
/// 2. the expiration must not have passed, else `SubscriptionExpired`;
/// 3. the billing period identified by `last_payment_timestamp` must not
///    already be settled: a charge at or before the stored time is a replay
///    (`Replay`) — the first successful charge for a period is authoritative
///    and repeated submissions are never double-applied;
/// 4. the full interval must have elapsed since the stored last-payment
///    time, else `IntervalNotElapsed`;
/// 5. the prepaid balance must cover the charge, else `InsufficientBalance`.
pub open spec fn charge_decision(s: Subscription, now: u64) -> Result<(), Error> {
    if s.status != SubscriptionStatus::Active {
        Err(Error::NotActive)
    } else if is_expired(s, now) {
        Err(Error::SubscriptionExpired)
    } else if now <= s.last_payment_timestamp {
        Err(Error::Replay)
    } else if (now as int) < s.last_payment_timestamp + s.interval_seconds {
        Err(Error::IntervalNotElapsed)
    } else if s.prepaid_balance < s.amount {
        Err(Error::InsufficientBalance)
    } else {
        Ok(())
    }
}

/// The record after a successful interval charge: the balance drops by the
/// charge amount, the last-payment time advances to `now`, and the status
/// stays `Active` (an idempotent transition). Nothing else changes.
pub open spec fn charged(s: Subscription, now: u64) -> Subscription {
    Subscription {
        prepaid_balance: (s.prepaid_balance - s.amount) as i128,
        last_payment_timestamp: now,
        ..s
    }
}

/// The record after a failed balance gate: the status turns
/// `InsufficientBalance` — the failure is sticky until the subscriber
/// deposits — while the balance itself is left untouched.
pub open spec fn marked_insufficient(s: Subscription) -> Subscription {
    Subscription { status: SubscriptionStatus::InsufficientBalance, ..s }
}

/// The usage charge decision over a stored record, gates in order: the
/// subscription must be `Active` (`NotActive`), usage charging must be
/// enabled (`UsageNotEnabled`), the amount must be positive
/// (`InvalidAmount`), and the prepaid balance must cover it
/// (`InsufficientPrepaidBalance`).
pub open spec fn usage_decision(s: Subscription, usage_amount: i128) -> Result<(), Error> {
    if s.status != SubscriptionStatus::Active {
        Err(Error::NotActive)
    } else if !s.usage_enabled {
        Err(Error::UsageNotEnabled)
    } else if usage_amount <= 0 {
        Err(Error::InvalidAmount)
    } else if usage_amount > s.prepaid_balance {
        Err(Error::InsufficientPrepaidBalance)
    } else {
        Ok(())
    }
}

/// The record after a successful usage charge: the balance drops by the
/// usage amount; draining it to exactly zero transitions the subscription
/// to `InsufficientBalance` (it requires subscriber action), otherwise it
/// stays `Active`. The last-payment time is never touched — usage charging
/// is orthogonal to interval billing.
pub open spec fn usage_charged(s: Subscription, usage_amount: i128) -> Subscription {
    Subscription {
        prepaid_balance: (s.prepaid_balance - usage_amount) as i128,
        status: if s.prepaid_balance == usage_amount {
            SubscriptionStatus::InsufficientBalance
        } else {
            s.status
        },
        ..s
    }
}

/// No earlier batch entry names the same id.
pub open spec fn first_occurrence(ids: Seq<u32>, i: int) -> bool {
    forall|j: int| 0 <= j < i ==> ids[j] != ids[i]
}

impl Vault {
    /// Charges one subscription for the current billing interval.
    ///
    /// The gates of [`charge_decision`] are checked in order against the
    /// stored record; each failure short-circuits with no state change, with
    /// one recorded exception: a failed balance gate persists the sticky
    /// `Active -> InsufficientBalance` transition while leaving the balance
    /// itself untouched. On success the merchant accumulator is credited by
    /// the charge amount (failing closed with `Overflow`, untouched, when it
    /// cannot hold the sum), the balance is debited, and the last-payment
    /// time advances to `now`.
    pub fn charge_subscription(&mut self, subscription_id: u32, now: u64) -> (r: Result<(), Error>)
        requires
            old(self).wf(),
        ensures
            final(self).wf(),
            old(self).same_config(*final(self)),
            old(self).same_subs_except(*final(self), subscription_id),
            forall|j: u32| #[trigger] final(self).has_id(j) == old(self).has_id(j),
            !old(self).has_id(subscription_id) ==> r == Err::<(), Error>(Error::NotFound) && old(self).state_eq(*final(self)),
            old(self).has_id(subscription_id) ==> {
                let pre = old(self).record_of(subscription_id);
                let d = charge_decision(pre, now);
                match d {
                    Ok(()) => {
                        if old(self).merchant_balance_of(pre.merchant) + pre.amount <= i128::MAX {
                            &&& r is Ok
                            &&& final(self).record_of(subscription_id) == charged(pre, now)
                            &&& final(self).merchant_balance_of(pre.merchant) == old(self).merchant_balance_of(pre.merchant) + pre.amount
                            &&& forall|m: u64|
                                m != pre.merchant ==> #[trigger] final(self).merchant_balance_of(m)
                                    == old(self).merchant_balance_of(m)
                        } else {
                            r == Err::<(), Error>(Error::Overflow) && old(self).state_eq(
                                *final(self),
                            )
                        }
                    },
                    Err(e) => {
                        &&& r == Err::<(), Error>(e)
                        &&& if e == Error::InsufficientBalance {
                            final(self).record_of(subscription_id) == marked_insufficient(pre)
                                && final(self).merchants@ == old(self).merchants@
                        } else {
                            old(self).state_eq(*final(self))
                        }
                    },
                }
            },
    {
        let k = match self.find_index(subscription_id) {
            Some(k) => k,
            None => {
                return Err(Error::NotFound);
            },
        };
        proof {
            lemma_id_found(self.subs@, subscription_id, k as int);
        }
        let s = self.subs[k].record;
        if s.status != SubscriptionStatus::Active {
            return Err(Error::NotActive);
        }
        if let Some(expiration) = s.expiration {
            if now >= expiration {
                return Err(Error::SubscriptionExpired);
            }
        }
        // Replay gate before the interval gate: a charge at (or before) the
        // stored last-payment time targets an already-settled period, and is
        // reported as a replay even when the interval has not elapsed either.
        if now <= s.last_payment_timestamp {
            return Err(Error::Replay);
        }
        // Interval gate against the *stored* last-payment time. A period end
        // past the largest timestamp can never be reached.
        match s.last_payment_timestamp.checked_add(s.interval_seconds) {
            Some(due) => {
                if now < due {
                    return Err(Error::IntervalNotElapsed);
                }
            },
            None => {
                return Err(Error::IntervalNotElapsed);
            },
        }
        if s.prepaid_balance < s.amount {
            // Sticky failure: record Active -> InsufficientBalance, balance
            // untouched. The transition is table-valid.
            proof {
                assert(transition_allowed(s.status, SubscriptionStatus::InsufficientBalance));
            }
            let record = marked_insufficient_exec(s);
            let e = SubEntry { id: subscription_id, record };
            let ghost s0 = self.subs@;
            self.subs[k] = e;
            proof {
                lemma_id_update(s0, k as int, e);
            }
            return Err(Error::InsufficientBalance);
        }
        // Settle: credit the merchant first, failing closed before any
        // ledger change.
        match self.credit_merchant(s.merchant, s.amount) {
            Ok(()) => {},
            Err(e) => {
                return Err(e);
            },
        }
        let ghost mid = *self;
        let new_balance = match safe_sub_balance(s.prepaid_balance, s.amount) {
            Ok(b) => b,
            Err(e) => {
                proof {
                    assert(false);
                }
                return Err(e);
            },
        };
        let record = Subscription {
            prepaid_balance: new_balance,
            last_payment_timestamp: now,
            ..s
        };
        let e = SubEntry { id: subscription_id, record };
        let ghost s0 = self.subs@;
        self.subs[k] = e;
        proof {
            lemma_id_update(s0, k as int, e);
            assert forall|m: u64| m != s.merchant implies #[trigger] self.merchant_balance_of(m)
                == old(self).merchant_balance_of(m) by {
                assert(mid.merchant_balance_of(m) == old(self).merchant_balance_of(m));
            }
        }
        Ok(())
    }

    /// Charges a metered usage amount against the prepaid balance.
    ///
    /// The gates of [`usage_decision`] are checked in order; each failure
    /// short-circuits with no state change. On success the balance drops by
    /// the usage amount; draining it to exactly zero transitions the
    /// subscription to `InsufficientBalance`. Usage charges never touch the
    /// last-payment time and credit no merchant accumulator.
    pub fn charge_usage(&mut self, subscription_id: u32, usage_amount: i128) -> (r: Result<
        (),
        Error,
    >)
        requires
            old(self).wf(),
        ensures
            final(self).wf(),
            old(self).same_config(*final(self)),
            old(self).same_subs_except(*final(self), subscription_id),
            final(self).merchants@ == old(self).merchants@,
            forall|j: u32| #[trigger] final(self).has_id(j) == old(self).has_id(j),
            !old(self).has_id(subscription_id) ==> r == Err::<(), Error>(Error::NotFound) && old(self).state_eq(*final(self)),
            old(self).has_id(subscription_id) ==> {
                let pre = old(self).record_of(subscription_id);
                match usage_decision(pre, usage_amount) {
                    Ok(()) => r is Ok && final(self).record_of(subscription_id) == usage_charged(
                        pre,
                        usage_amount,
                    ),
                    Err(e) => r == Err::<(), Error>(e) && old(self).state_eq(*final(self)),
                }
            },
    {
        let k = match self.find_index(subscription_id) {
            Some(k) => k,
            None => {
                return Err(Error::NotFound);
            },
        };
        proof {
            lemma_id_found(self.subs@, subscription_id, k as int);
        }
        let s = self.subs[k].record;
        if s.status != SubscriptionStatus::Active {
            return Err(Error::NotActive);
        }
        if !s.usage_enabled {
            return Err(Error::UsageNotEnabled);
        }
        if usage_amount <= 0 {
            return Err(Error::InvalidAmount);
        }
        if usage_amount > s.prepaid_balance {
            return Err(Error::InsufficientPrepaidBalance);
        }
        let new_balance = match safe_sub_balance(s.prepaid_balance, usage_amount) {
            Ok(b) => b,
            Err(e) => {
                proof {
                    assert(false);
                }
                return Err(e);
            },
        };
        // Draining to zero is treated like a failed interval charge: it
        // requires subscriber action before further charges.
        let new_status = if new_balance == 0 {
            SubscriptionStatus::InsufficientBalance
        } else {
            s.status
        };
        proof {
            assert(transition_allowed(s.status, new_status));
        }
        let record = Subscription { prepaid_balance: new_balance, status: new_status, ..s };
        let e = SubEntry { id: subscription_id, record };
        let ghost s0 = self.subs@;
        self.subs[k] = e;
        proof {
            lemma_id_update(s0, k as int, e);
        }
        Ok(())
    }

    /// Charges a batch of subscriptions, one independent interval charge per
    /// listed id, in input order and including duplicates.
    ///
    /// There is no cross-item atomicity: one item's failure never rolls back
    /// or blocks another, and a subscription not listed in the batch is
    /// never touched. Each outcome is reported as a success flag plus a
    /// wire-level error code (0 on success). A duplicate id succeeds at most
    /// once per billing period, because the first successful charge already
    /// advances its last-payment time.
    ///
    /// The caller presents a single authorization proof for the whole call;
    /// the vault only checks that an admin is configured and that emergency
    /// stop is not active.
    pub fn batch_charge(&mut self, subscription_ids: &Vec<u32>, now: u64) -> (r: Result<
        Vec<BatchChargeResult>,
        Error,
    >)
        requires
            old(self).wf(),
        ensures
            final(self).wf(),
            old(self).same_config(*final(self)),
            forall|j: u32| #[trigger] final(self).has_id(j) == old(self).has_id(j),
            old(self).stopped ==> r == Err::<Vec<BatchChargeResult>, Error>(Error::ContractStopped)
                && old(self).state_eq(*final(self)),
            !old(self).stopped && old(self).admin is None ==> r == Err::<
                Vec<BatchChargeResult>,
                Error,
            >(Error::Unauthorized) && old(self).state_eq(*final(self)),
            !old(self).stopped && old(self).admin is Some ==> r is Ok,
            r matches Ok(results) ==> {
                &&& results@.len() == subscription_ids@.len()
                &&& forall|j: u32|
                    !subscription_ids@.contains(j) ==> #[trigger] final(self).has_id(j) == old(self).has_id(j) && (old(self).has_id(j) ==> final(self).record_of(j) == old(self).record_of(j))
                &&& forall|i: int|
                    0 <= i < results@.len() ==> ((#[trigger] results@[i]).success <==> results@[i].error_code == 0)
                &&& forall|i: int|
                    0 <= i < results@.len() && !old(self).has_id(subscription_ids@[i])
                        ==> !(#[trigger] results@[i]).success && results@[i].error_code
                        == spec_error_code(Error::NotFound)
                &&& forall|i: int|
                    #![trigger results@[i]]
                    0 <= i < results@.len() && first_occurrence(subscription_ids@, i) && old(self).has_id(subscription_ids@[i]) ==> match charge_decision(
                        old(self).record_of(subscription_ids@[i]),
                        now,
                    ) {
                        Ok(()) => results@[i].success || results@[i].error_code
                            == spec_error_code(Error::Overflow),
                        Err(e) => results@[i].error_code == spec_error_code(e),
                    }
                &&& forall|i: int|
                    #![trigger results@[i]]
                    0 <= i < results@.len() && results@[i].success ==> final(self).has_id(
                        subscription_ids@[i],
                    ) && final(self).record_of(subscription_ids@[i]).last_payment_timestamp == now
                &&& forall|i: int, j: int|
                    #![trigger results@[i], results@[j]]
                    0 <= i < j < results@.len() && subscription_ids@[i] == subscription_ids@[j]
                        && results@[i].success ==> !results@[j].success
            },
    {
        self.require_not_stopped()?;
        let _auth_admin = self.require_admin()?;
        let ghost pre = *self;
        let n = subscription_ids.len();
        let mut results: Vec<BatchChargeResult> = Vec::new();
        let mut i: usize = 0;
        while i < n
            invariant
                self.wf(),
                pre.same_config(*self),
                n == subscription_ids@.len(),
                i <= n,
                results@.len() == i as int,
                forall|j: u32| #[trigger] self.has_id(j) == pre.has_id(j),
                forall|j: u32|
                    !subscription_ids@.contains(j) ==> #[trigger] self.has_id(j) == pre.has_id(j)
                        && (pre.has_id(j) ==> self.record_of(j) == pre.record_of(j)),
                forall|j: u32|
                    #![trigger self.record_of(j)]
                    !subscription_ids@.take(i as int).contains(j) && pre.has_id(j)
                        ==> self.record_of(j) == pre.record_of(j),
                forall|k: int|
                    0 <= k < results@.len() ==> ((#[trigger] results@[k]).success <==> results@[k].error_code == 0),
                forall|k: int|
                    0 <= k < results@.len() && !pre.has_id(subscription_ids@[k]) ==> !(
                    #[trigger] results@[k]).success && results@[k].error_code == spec_error_code(
                        Error::NotFound,
                    ),
                forall|k: int|
                    #![trigger results@[k]]
                    0 <= k < results@.len() && first_occurrence(subscription_ids@, k)
                        && pre.has_id(subscription_ids@[k]) ==> match charge_decision(
                        pre.record_of(subscription_ids@[k]),
                        now,
                    ) {
                        Ok(()) => results@[k].success || results@[k].error_code
                            == spec_error_code(Error::Overflow),
                        Err(e) => results@[k].error_code == spec_error_code(e),
                    },
                forall|k: int|
                    #![trigger results@[k]]
                    0 <= k < results@.len() && results@[k].success ==> self.has_id(
                        subscription_ids@[k],
                    ) && self.record_of(subscription_ids@[k]).last_payment_timestamp == now,
                forall|k1: int, k2: int|
                    #![trigger results@[k1], results@[k2]]
                    0 <= k1 < k2 < results@.len() && subscription_ids@[k1]
                        == subscription_ids@[k2] && results@[k1].success ==> !results@[k2].success,
            decreases n - i,
        {
            let ghost ids = subscription_ids@;
            let ghost ii = i as int;
            let id = subscription_ids[i];
            proof {
                assert(ids.contains(ids[ii]));
            }
            let ghost before = *self;
            let outcome = self.charge_subscription(id, now);
            let item = match outcome {
                Ok(()) => BatchChargeResult { success: true, error_code: 0 },
                Err(e) => BatchChargeResult { success: false, error_code: e.to_code() },
            };
            proof {
                assert forall|j: u32| !ids.contains(j) implies #[trigger] self.has_id(j)
                    == pre.has_id(j) && (pre.has_id(j) ==> self.record_of(j) == pre.record_of(
                    j,
                )) by {
                    assert(j != id);
                    assert(self.has_id(j) == before.has_id(j));
                    if pre.has_id(j) {
                        assert(before.record_of(j) == pre.record_of(j));
                        assert(self.record_of(j) == before.record_of(j));
                    }
                }
                if !pre.has_id(id) {
                    assert(!before.has_id(id));
                    assert(outcome == Err::<(), Error>(Error::NotFound));
                }
                // Entries outside the processed prefix keep their records.
                assert forall|j: u32|
                    !ids.take(ii + 1).contains(j) && pre.has_id(j) implies #[trigger] self.record_of(
                    j,
                ) == pre.record_of(j) by {
                    assert(ids.take(ii + 1)[ii] == id);
                    assert(j != id);
                    if ids.take(ii).contains(j) {
                        let m = choose|m: int|
                            0 <= m < ids.take(ii).len() && ids.take(ii)[m] == j;
                        assert(ids.take(ii + 1)[m] == j);
                        assert(false);
                    }
                    assert(before.record_of(j) == pre.record_of(j));
                    assert(self.record_of(j) == before.record_of(j));
                }
                // The id just charged was pristine iff this is its first
                // occurrence, so the first occurrence's outcome is exactly
                // the decision over the original record.
                if first_occurrence(ids, ii) && pre.has_id(id) {
                    if ids.take(ii).contains(id) {
                        let m = choose|m: int|
                            0 <= m < ids.take(ii).len() && ids.take(ii)[m] == id;
                        assert(ids[m] == id);
                        assert(false);
                    }
                    assert(before.record_of(id) == pre.record_of(id));
                    assert(before.has_id(id));
                }
                // After a settlement in this batch, the stored last-payment
                // time equals `now`, so every further charge of the same id
                // in this batch is refused without touching the record.
                if before.has_id(id) && before.record_of(id).last_payment_timestamp == now {
                    assert(charge_decision(before.record_of(id), now) != Ok::<(), Error>(()));
                    assert(charge_decision(before.record_of(id), now) != Err::<(), Error>(
                        Error::InsufficientBalance,
                    ));
                    assert(outcome is Err);
                    assert(self.record_of(id) == before.record_of(id));
                }
                if outcome is Ok {
                    assert(before.has_id(id));
                    assert(self.record_of(id).last_payment_timestamp == now);
                }
            }
            results.push(item);
            i += 1;
            proof {
                // The per-item facts carry over to the extended result list.
                assert forall|k: int|
                    #![trigger results@[k]]
                    0 <= k < results@.len() && results@[k].success implies self.has_id(
                    ids[k],
                ) && self.record_of(ids[k]).last_payment_timestamp == now by {
                    if k < ii {
                        if ids[k] == id {
                            assert(before.record_of(ids[k]).last_payment_timestamp == now);
                        } else {
                            assert(self.record_of(ids[k]) == before.record_of(ids[k]));
                        }
                    }
                }
            }
        }
        proof {
            assert(subscription_ids@.take(n as int) =~= subscription_ids@);
        }
        Ok(results)
    }
}

/// Exec mirror of [`marked_insufficient`].
fn marked_insufficient_exec(s: Subscription) -> (r: Subscription)
    ensures
        r == marked_insufficient(s),
{
    Subscription { status: SubscriptionStatus::InsufficientBalance, ..s }
}

/// Law: failure is non-destructive. A charge that fails only its balance
/// gate marks the record `InsufficientBalance` while leaving the prepaid
/// balance (and every other field) untouched, and a repeated charge of the
/// marked record reports `NotActive` — which mutates nothing at all.
pub proof fn lemma_non_destructive_failure(s: Subscription, now: u64)
    requires
        s.status == SubscriptionStatus::Active,
        !is_expired(s, now),
        now > s.last_payment_timestamp,
        now >= s.last_payment_timestamp + s.interval_seconds,
        s.prepaid_balance < s.amount,
    ensures
        charge_decision(s, now) == Err::<(), Error>(Error::InsufficientBalance),
        marked_insufficient(s).prepaid_balance == s.prepaid_balance,
        marked_insufficient(s) == (Subscription {
            status: SubscriptionStatus::InsufficientBalance,
            ..s
        }),
        charge_decision(marked_insufficient(s), now) == Err::<(), Error>(Error::NotActive),
{
}

/// Law: the interval boundary is exact. One tick before
/// `last_payment_timestamp + interval_seconds` the charge fails with
/// `IntervalNotElapsed`; at exactly that time it succeeds and sets
/// `last_payment_timestamp` to that exact value. (With an interval of one
/// second the early attempt falls on the already-settled period and is a
/// replay instead, so intervals of at least two seconds are considered.)
pub proof fn lemma_interval_boundary(s: Subscription, now_early: u64, now_due: u64)
    requires
        s.status == SubscriptionStatus::Active,
        s.interval_seconds >= 2,
        s.last_payment_timestamp + s.interval_seconds <= u64::MAX,
        now_early == s.last_payment_timestamp + s.interval_seconds - 1,
        now_due == s.last_payment_timestamp + s.interval_seconds,
        !is_expired(s, now_due),
        s.prepaid_balance >= s.amount,
    ensures
        charge_decision(s, now_early) == Err::<(), Error>(Error::IntervalNotElapsed),
        charge_decision(s, now_due) == Ok::<(), Error>(()),
        charged(s, now_due).last_payment_timestamp == s.last_payment_timestamp
            + s.interval_seconds,
{
}

/// Law: replay safety. After a successful charge at `now`, a second charge
/// of the same subscription at the same `now` is refused as a `Replay`, and
/// the balance reflects exactly one debit. The stored last-payment time
/// strictly increases with every successful charge — it never moves
/// backwards and never repeats.
pub proof fn lemma_replay_safety(s: Subscription, now: u64)
    requires
        s.wf(),
        charge_decision(s, now) == Ok::<(), Error>(()),
    ensures
        charge_decision(charged(s, now), now) == Err::<(), Error>(Error::Replay),
        charged(s, now).prepaid_balance == s.prepaid_balance - s.amount,
        charged(s, now).last_payment_timestamp > s.last_payment_timestamp,
{
}

/// Law: the usage drain transition. Charging usage equal to the full
/// prepaid balance succeeds, leaves the balance at exactly zero and marks
/// the subscription `InsufficientBalance`; charging any usage exceeding the
/// balance is refused with `InsufficientPrepaidBalance` (which mutates
/// nothing).
pub proof fn lemma_usage_drain(s: Subscription)
    requires
        s.status == SubscriptionStatus::Active,
        s.usage_enabled,
        s.prepaid_balance > 0,
    ensures
        usage_decision(s, s.prepaid_balance) == Ok::<(), Error>(()),
        usage_charged(s, s.prepaid_balance).prepaid_balance == 0,
        usage_charged(s, s.prepaid_balance).status == SubscriptionStatus::InsufficientBalance,
        forall|x: i128|
            x > s.prepaid_balance ==> #[trigger] usage_decision(s, x) == Err::<(), Error>(
                Error::InsufficientPrepaidBalance,
            ),
{
}

} // verus!
