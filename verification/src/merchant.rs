//! Merchant payouts: single and batch withdrawal from the per-merchant
//! accumulator that successful charges credit.

use vstd::prelude::*;

use crate::errors::Error;
use crate::safe_math::safe_sub_balance;
use crate::types::BatchWithdrawResult;
use crate::vault::{lemma_merchant_found, lemma_merchant_update, MerchantEntry, Vault};

verus! {

impl Vault {
    /// Withdraws one amount from a merchant's accumulated balance.
    ///
    /// The amount must be positive and covered by the accumulator; the debit
    /// goes through the same checked arithmetic as every other balance
    /// mutation, so a failed withdrawal leaves the ledger untouched. The
    /// host transfers the withdrawn value to the merchant.
    pub fn withdraw_merchant_funds(&mut self, merchant: u64, amount: i128) -> (r: Result<
        (),
        Error,
    >)
        requires
            old(self).wf(),
        ensures
            final(self).wf(),
            final(self).subs@ == old(self).subs@,
            old(self).same_config(*final(self)),
            forall|m: u64|
                m != merchant ==> #[trigger] final(self).merchant_balance_of(m) == old(self).merchant_balance_of(m),
            amount <= 0 ==> r == Err::<(), Error>(Error::InvalidAmount) && old(self).state_eq(
                *final(self),
            ),
            amount > 0 && old(self).merchant_balance_of(merchant) < amount ==> r == Err::<
                (),
                Error,
            >(Error::InsufficientMerchantBalance) && old(self).state_eq(*final(self)),
            amount > 0 && old(self).merchant_balance_of(merchant) >= amount ==> r is Ok && final(self).merchant_balance_of(merchant) == old(self).merchant_balance_of(merchant) - amount,
    {
        if amount <= 0 {
            return Err(Error::InvalidAmount);
        }
        let k = match self.find_merchant_index(merchant) {
            Some(k) => k,
            None => {
                // A merchant never credited has a zero balance.
                return Err(Error::InsufficientMerchantBalance);
            },
        };
        proof {
            lemma_merchant_found(self.merchants@, merchant, k as int);
        }
        let balance = self.merchants[k].balance;
        let new_balance = match safe_sub_balance(balance, amount) {
            Ok(b) => b,
            Err(_) => {
                return Err(Error::InsufficientMerchantBalance);
            },
        };
        let e = MerchantEntry { merchant, balance: new_balance };
        let ghost m0 = self.merchants@;
        self.merchants[k] = e;
        proof {
            lemma_merchant_update(m0, k as int, e);
        }
        Ok(())
    }

    /// Withdraws a batch of amounts for a single merchant.
    ///
    /// The merchant authorizes once for the entire batch; each entry is then
    /// attempted independently, in input order, and a failed entry never
    /// blocks or rolls back another. Each outcome is a success flag plus a
    /// wire-level error code (0 on success). The accounting is never
    /// double-debited: a failed entry leaves the ledger unchanged.
    pub fn batch_withdraw_merchant_funds(&mut self, merchant: u64, amounts: &Vec<i128>) -> (r:
        Result<Vec<BatchWithdrawResult>, Error>)
        requires
            old(self).wf(),
        ensures
            final(self).wf(),
            final(self).subs@ == old(self).subs@,
            old(self).same_config(*final(self)),
            forall|m: u64|
                m != merchant ==> #[trigger] final(self).merchant_balance_of(m) == old(self).merchant_balance_of(m),
            final(self).merchant_balance_of(merchant) <= old(self).merchant_balance_of(merchant),
            r is Ok,
            r matches Ok(results) ==> {
                &&& results@.len() == amounts@.len()
                &&& forall|i: int|
                    0 <= i < results@.len() ==> ((#[trigger] results@[i]).success <==> results@[i].error_code == 0)
                &&& forall|i: int|
                    0 <= i < results@.len() && amounts@[i] <= 0 ==> !(
                    #[trigger] results@[i]).success
            },
    {
        let ghost pre = *self;
        let n = amounts.len();
        let mut results: Vec<BatchWithdrawResult> = Vec::new();
        let mut i: usize = 0;
        while i < n
            invariant
                self.wf(),
                pre.same_config(*self),
                self.subs@ == pre.subs@,
                n == amounts@.len(),
                i <= n,
                results@.len() == i as int,
                forall|m: u64|
                    m != merchant ==> #[trigger] self.merchant_balance_of(m)
                        == pre.merchant_balance_of(m),
                self.merchant_balance_of(merchant) <= pre.merchant_balance_of(merchant),
                forall|k: int|
                    0 <= k < results@.len() ==> ((#[trigger] results@[k]).success <==> results@[k].error_code == 0),
                forall|k: int|
                    0 <= k < results@.len() && amounts@[k] <= 0 ==> !(
                    #[trigger] results@[k]).success,
            decreases n - i,
        {
            let amount = amounts[i];
            let ghost before = *self;
            let item = match self.withdraw_merchant_funds(merchant, amount) {
                Ok(()) => BatchWithdrawResult { success: true, error_code: 0 },
                Err(e) => BatchWithdrawResult { success: false, error_code: e.to_code() },
            };
            proof {
                assert forall|m: u64| m != merchant implies #[trigger] self.merchant_balance_of(m)
                    == pre.merchant_balance_of(m) by {
                    assert(before.merchant_balance_of(m) == pre.merchant_balance_of(m));
                }
            }
            results.push(item);
            i += 1;
        }
        Ok(results)
    }
}

} // verus!
