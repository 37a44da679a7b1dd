//! Read-only projections over the vault: next-charge estimates, top-up
//! estimates, counts and listings.

use vstd::prelude::*;

use crate::errors::Error;
use crate::types::{NextChargeInfo, Subscription, SubscriptionPage, SubscriptionStatus};
use crate::vault::{SubEntry, Vault};

verus! {

/// What [`compute_next_charge_info`] returns: the next charge falls one full
/// interval after the stored last-payment time (saturating at the largest
/// timestamp), and a charge is expected exactly for the `Active` and
/// `InsufficientBalance` states.
pub open spec fn spec_next_charge_info(s: Subscription) -> NextChargeInfo {
    NextChargeInfo {
        next_charge_timestamp: if s.last_payment_timestamp + s.interval_seconds > u64::MAX {
            u64::MAX
        } else {
            (s.last_payment_timestamp + s.interval_seconds) as u64
        },
        is_charge_expected: s.status == SubscriptionStatus::Active || s.status
            == SubscriptionStatus::InsufficientBalance,
    }
}

/// The ids of this subscriber's subscriptions with id at least `start_id`,
/// in store order.
pub open spec fn subscriber_ids_from(s: Seq<SubEntry>, subscriber: u64, start_id: u32) -> Seq<u32>
    decreases s.len(),
{
    if s.len() == 0 {
        Seq::empty()
    } else {
        let rest = subscriber_ids_from(s.drop_last(), subscriber, start_id);
        if s.last().record.subscriber == subscriber && s.last().id >= start_id {
            rest.push(s.last().id)
        } else {
            rest
        }
    }
}

/// The records of this merchant's subscriptions, in store order.
pub open spec fn merchant_records(s: Seq<SubEntry>, merchant: u64) -> Seq<Subscription>
    decreases s.len(),
{
    if s.len() == 0 {
        Seq::empty()
    } else {
        let rest = merchant_records(s.drop_last(), merchant);
        if s.last().record.merchant == merchant {
            rest.push(s.last().record)
        } else {
            rest
        }
    }
}

/// Estimates the next charge attempt for a subscription record: its
/// timestamp, and whether a charge is actually expected given the status.
///
/// For `Paused` and `Cancelled` records the timestamp still says when the
/// charge *would* occur, with `is_charge_expected` false.
pub fn compute_next_charge_info(subscription: &Subscription) -> (info: NextChargeInfo)
    ensures
        info == spec_next_charge_info(*subscription),
{
    let next_charge_timestamp = match subscription.last_payment_timestamp.checked_add(
        subscription.interval_seconds,
    ) {
        Some(t) => t,
        None => u64::MAX,
    };
    let is_charge_expected = match subscription.status {
        SubscriptionStatus::Active => true,
        SubscriptionStatus::InsufficientBalance => true,
        SubscriptionStatus::Paused => false,
        SubscriptionStatus::Cancelled => false,
    };
    NextChargeInfo { next_charge_timestamp, is_charge_expected }
}

impl Vault {
    /// Estimated next charge info (timestamp plus whether a charge is
    /// expected) for a stored subscription.
    pub fn get_next_charge_info(&self, subscription_id: u32) -> (r: Result<NextChargeInfo, Error>)
        requires
            self.wf(),
        ensures
            r is Ok <==> self.has_id(subscription_id),
            r is Ok ==> r == Ok::<NextChargeInfo, Error>(
                spec_next_charge_info(self.record_of(subscription_id)),
            ),
            r is Err ==> r == Err::<NextChargeInfo, Error>(Error::NotFound),
    {
        let subscription = self.get_subscription(subscription_id)?;
        Ok(compute_next_charge_info(&subscription))
    }

    /// Estimates how much a subscriber still needs to deposit to cover the
    /// given number of future interval charges: the total charge minus the
    /// current prepaid balance, and zero when the balance already covers it.
    /// Fails closed with `Overflow` when the total is not representable.
    pub fn estimate_topup_for_intervals(&self, subscription_id: u32, num_intervals: u32) -> (r:
        Result<i128, Error>)
        requires
            self.wf(),
        ensures
            !self.has_id(subscription_id) ==> r == Err::<i128, Error>(Error::NotFound),
            self.has_id(subscription_id) ==> {
                let s = self.record_of(subscription_id);
                if s.amount * num_intervals > i128::MAX {
                    r == Err::<i128, Error>(Error::Overflow)
                } else if s.prepaid_balance >= s.amount * num_intervals {
                    r == Ok::<i128, Error>(0)
                } else {
                    r == Ok::<i128, Error>((s.amount * num_intervals - s.prepaid_balance) as i128)
                }
            },
    {
        let s = self.get_subscription(subscription_id)?;
        let total = match s.amount.checked_mul(num_intervals as i128) {
            Some(t) => t,
            None => {
                return Err(Error::Overflow);
            },
        };
        if s.prepaid_balance >= total {
            Ok(0)
        } else {
            Ok(total - s.prepaid_balance)
        }
    }

    /// The number of stored subscriptions paying this merchant, saturating
    /// at the largest 32-bit value.
    pub fn get_merchant_subscription_count(&self, merchant: u64) -> (r: u32)
        requires
            self.wf(),
        ensures
            r == if merchant_records(self.subs@, merchant).len() > u32::MAX {
                u32::MAX
            } else {
                merchant_records(self.subs@, merchant).len() as u32
            },
    {
        let n = self.subs.len();
        let mut count: u32 = 0;
        let mut i: usize = 0;
        while i < n
            invariant
                i <= n,
                n == self.subs@.len(),
                count == if merchant_records(self.subs@.take(i as int), merchant).len()
                    > u32::MAX {
                    u32::MAX as int
                } else {
                    merchant_records(self.subs@.take(i as int), merchant).len() as int
                },
            decreases n - i,
        {
            let ghost prefix = self.subs@.take(i as int + 1);
            proof {
                assert(prefix.drop_last() =~= self.subs@.take(i as int));
                assert(prefix.last() == self.subs@[i as int]);
            }
            if self.subs[i].record.merchant == merchant {
                if count < u32::MAX {
                    count += 1;
                }
            }
            i += 1;
        }
        proof {
            assert(self.subs@.take(n as int) =~= self.subs@);
        }
        count
    }

    /// Returns this merchant's subscription records in store order,
    /// paginated: up to `limit` records starting at offset `start` within
    /// the merchant's list.
    pub fn get_subscriptions_by_merchant(&self, merchant: u64, start: u32, limit: u32) -> (page:
        Vec<Subscription>)
        requires
            self.wf(),
        ensures
            ({
                let all = merchant_records(self.subs@, merchant);
                let lo = if start as int <= all.len() {
                    start as int
                } else {
                    all.len() as int
                };
                let hi = if start as int + limit as int <= all.len() {
                    start as int + limit as int
                } else {
                    all.len() as int
                };
                page@ == all.subrange(lo, hi)
            }),
    {
        let n = self.subs.len();
        let mut all: Vec<Subscription> = Vec::new();
        let mut i: usize = 0;
        while i < n
            invariant
                i <= n,
                n == self.subs@.len(),
                all@ == merchant_records(self.subs@.take(i as int), merchant),
            decreases n - i,
        {
            let ghost prefix = self.subs@.take(i as int + 1);
            proof {
                assert(prefix.drop_last() =~= self.subs@.take(i as int));
                assert(prefix.last() == self.subs@[i as int]);
            }
            if self.subs[i].record.merchant == merchant {
                all.push(self.subs[i].record);
            }
            i += 1;
        }
        proof {
            assert(self.subs@.take(n as int) =~= self.subs@);
        }
        let total = all.len();
        let lo = if (start as usize) <= total {
            start as usize
        } else {
            total
        };
        let mut hi = lo;
        // hi = min(lo + limit, total), computed without overflow.
        if total - lo > limit as usize {
            hi = lo + limit as usize;
        } else {
            hi = total;
        }
        let mut page: Vec<Subscription> = Vec::new();
        let mut j: usize = lo;
        while j < hi
            invariant
                lo <= j <= hi <= total,
                total == all@.len(),
                page@ == all@.subrange(lo as int, j as int),
            decreases hi - j,
        {
            page.push(all[j]);
            proof {
                assert(page@ =~= all@.subrange(lo as int, j as int + 1));
            }
            j += 1;
        }
        proof {
            assert(all@.subrange(lo as int, hi as int) == page@);
        }
        page
    }

    /// Lists this subscriber's subscription ids in store order, starting at
    /// `start_id`: one page of up to `limit` ids, plus whether more matching
    /// ids exist past the page. A zero limit is refused.
    pub fn list_subscriptions_by_subscriber(
        &self,
        subscriber: u64,
        start_id: u32,
        limit: u32,
    ) -> (r: Result<SubscriptionPage, Error>)
        requires
            self.wf(),
        ensures
            limit == 0 ==> r == Err::<SubscriptionPage, Error>(Error::InvalidArguments),
            limit > 0 ==> (r matches Ok(page) && {
                let all = subscriber_ids_from(self.subs@, subscriber, start_id);
                &&& page.subscription_ids@ == all.take(
                    if limit as int <= all.len() {
                        limit as int
                    } else {
                        all.len() as int
                    },
                )
                &&& page.has_next == (all.len() > limit)
            }),
    {
        if limit == 0 {
            return Err(Error::InvalidArguments);
        }
        let n = self.subs.len();
        let mut all: Vec<u32> = Vec::new();
        let mut i: usize = 0;
        while i < n
            invariant
                i <= n,
                n == self.subs@.len(),
                all@ == subscriber_ids_from(self.subs@.take(i as int), subscriber, start_id),
            decreases n - i,
        {
            let ghost prefix = self.subs@.take(i as int + 1);
            proof {
                assert(prefix.drop_last() =~= self.subs@.take(i as int));
                assert(prefix.last() == self.subs@[i as int]);
            }
            let entry = self.subs[i];
            if entry.record.subscriber == subscriber && entry.id >= start_id {
                all.push(entry.id);
            }
            i += 1;
        }
        proof {
            assert(self.subs@.take(n as int) =~= self.subs@);
        }
        let total = all.len();
        let took = if (limit as usize) <= total {
            limit as usize
        } else {
            total
        };
        let mut subscription_ids: Vec<u32> = Vec::new();
        let mut j: usize = 0;
        while j < took
            invariant
                j <= took <= total,
                total == all@.len(),
                subscription_ids@ == all@.take(j as int),
            decreases took - j,
        {
            subscription_ids.push(all[j]);
            proof {
                assert(subscription_ids@ =~= all@.take(j as int + 1));
            }
            j += 1;
        }
        let has_next = total > limit as usize;
        Ok(SubscriptionPage { subscription_ids, has_next })
    }
}

} // verus!
