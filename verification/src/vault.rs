//! The vault state and its mutations.
//!
//! A [`Vault`] models the contract's persistent state as plain values: the
//! subscription store (keyed by 32-bit id), the per-merchant balance
//! accumulators, the monotonic id counter and the configuration slots. The
//! host environment persists this state and authenticates callers; the vault
//! enforces every rule about what the state may become.

use vstd::prelude::*;

use crate::errors::Error;
use crate::safe_math::safe_add_balance;
use crate::state_machine::{transition_allowed, validate_status_transition};
use crate::types::{RecoveryEvent, RecoveryReason, Subscription, SubscriptionStatus};

verus! {

/// One stored subscription, tagged with its id.
#[derive(Clone, Copy, Debug, PartialEq, Eq, Structural)]
pub struct SubEntry {
    /// The subscription's unique id.
    pub id: u32,
    /// The subscription record itself.
    pub record: Subscription,
}

/// One merchant's accumulated, withdrawable balance.
#[derive(Clone, Copy, Debug, PartialEq, Eq, Structural)]
pub struct MerchantEntry {
    /// The merchant's identity.
    pub merchant: u64,
    /// Accumulated balance; never negative.
    pub balance: i128,
}

/// No two entries share an id.
pub open spec fn unique_ids(s: Seq<SubEntry>) -> bool {
    forall|i: int, j: int| 0 <= i < j < s.len() ==> s[i].id != s[j].id
}

/// Some entry carries the id.
pub open spec fn seq_has_id(s: Seq<SubEntry>, id: u32) -> bool {
    exists|i: int| 0 <= i < s.len() && s[i].id == id
}

/// The index of the entry carrying the id (meaningful when [`seq_has_id`]
/// holds and ids are unique).
pub open spec fn seq_idx_of(s: Seq<SubEntry>, id: u32) -> int {
    choose|i: int| 0 <= i < s.len() && s[i].id == id
}

/// The record stored under the id.
pub open spec fn seq_record_of(s: Seq<SubEntry>, id: u32) -> Subscription {
    s[seq_idx_of(s, id)].record
}

/// No two entries share a merchant.
pub open spec fn unique_merchants(s: Seq<MerchantEntry>) -> bool {
    forall|i: int, j: int| 0 <= i < j < s.len() ==> s[i].merchant != s[j].merchant
}

/// Some entry carries the merchant.
pub open spec fn seq_has_merchant(s: Seq<MerchantEntry>, m: u64) -> bool {
    exists|i: int| 0 <= i < s.len() && s[i].merchant == m
}

/// The index of the merchant's entry.
pub open spec fn seq_merchant_idx(s: Seq<MerchantEntry>, m: u64) -> int {
    choose|i: int| 0 <= i < s.len() && s[i].merchant == m
}

/// The merchant's accumulated balance; a merchant with no entry has
/// accumulated nothing.
pub open spec fn seq_merchant_balance(s: Seq<MerchantEntry>, m: u64) -> i128 {
    if seq_has_merchant(s, m) {
        s[seq_merchant_idx(s, m)].balance
    } else {
        0
    }
}

/// With unique ids, the entry found at `k` is *the* entry for its id.
pub proof fn lemma_id_found(s: Seq<SubEntry>, id: u32, k: int)
    requires
        unique_ids(s),
        0 <= k < s.len(),
        s[k].id == id,
    ensures
        seq_has_id(s, id),
        seq_idx_of(s, id) == k,
        seq_record_of(s, id) == s[k].record,
{
    assert(seq_has_id(s, id));
    let i = seq_idx_of(s, id);
    if i != k {
        if i < k {
            assert(s[i].id != s[k].id);
        } else {
            assert(s[k].id != s[i].id);
        }
    }
}

/// Overwriting the entry at `k` with an entry of the same id keeps ids
/// unique, stores the new record under that id, and leaves every other id's
/// presence and record untouched.
pub proof fn lemma_id_update(s: Seq<SubEntry>, k: int, e: SubEntry)
    requires
        unique_ids(s),
        0 <= k < s.len(),
        s[k].id == e.id,
    ensures
        unique_ids(s.update(k, e)),
        seq_has_id(s.update(k, e), e.id),
        seq_record_of(s.update(k, e), e.id) == e.record,
        forall|j: u32|
            j != e.id ==> #[trigger] seq_has_id(s.update(k, e), j) == seq_has_id(s, j),
        forall|j: u32|
            j != e.id && seq_has_id(s, j) ==> #[trigger] seq_record_of(s.update(k, e), j)
                == seq_record_of(s, j),
{
    let t = s.update(k, e);
    assert(unique_ids(t));
    lemma_id_found(t, e.id, k);
    assert forall|j: u32| j != e.id implies #[trigger] seq_has_id(t, j) == seq_has_id(s, j) by {
        if seq_has_id(s, j) {
            let i = seq_idx_of(s, j);
            assert(t[i].id == j);
        }
        if seq_has_id(t, j) {
            let i = choose|i: int| 0 <= i < t.len() && t[i].id == j;
            assert(s[i].id == j);
        }
    }
    assert forall|j: u32| j != e.id && seq_has_id(s, j) implies #[trigger] seq_record_of(t, j)
        == seq_record_of(s, j) by {
        let i = seq_idx_of(s, j);
        lemma_id_found(s, j, i);
        assert(t[i].id == j);
        lemma_id_found(t, j, i);
    }
}

/// Appending an entry whose id is fresh keeps ids unique, stores the new
/// record under that id, and leaves every other id untouched.
pub proof fn lemma_id_push(s: Seq<SubEntry>, e: SubEntry)
    requires
        unique_ids(s),
        !seq_has_id(s, e.id),
    ensures
        unique_ids(s.push(e)),
        seq_has_id(s.push(e), e.id),
        seq_record_of(s.push(e), e.id) == e.record,
        forall|j: u32| j != e.id ==> #[trigger] seq_has_id(s.push(e), j) == seq_has_id(s, j),
        forall|j: u32|
            j != e.id && seq_has_id(s, j) ==> #[trigger] seq_record_of(s.push(e), j)
                == seq_record_of(s, j),
{
    let t = s.push(e);
    assert forall|i: int, j: int| 0 <= i < j < t.len() implies t[i].id != t[j].id by {
        if j == s.len() {
            assert(t[i] == s[i]);
            if t[i].id == e.id {
                assert(seq_has_id(s, e.id));
            }
        }
    }
    lemma_id_found(t, e.id, s.len() as int);
    assert forall|j: u32| j != e.id implies #[trigger] seq_has_id(t, j) == seq_has_id(s, j) by {
        if seq_has_id(s, j) {
            let i = seq_idx_of(s, j);
            assert(t[i].id == j);
        }
        if seq_has_id(t, j) {
            let i = choose|i: int| 0 <= i < t.len() && t[i].id == j;
            assert(i < s.len());
            assert(s[i].id == j);
        }
    }
    assert forall|j: u32| j != e.id && seq_has_id(s, j) implies #[trigger] seq_record_of(t, j)
        == seq_record_of(s, j) by {
        let i = seq_idx_of(s, j);
        lemma_id_found(s, j, i);
        assert(t[i].id == j);
        lemma_id_found(t, j, i);
    }
}

/// With unique merchants, the entry found at `k` is *the* entry for its
/// merchant.
pub proof fn lemma_merchant_found(s: Seq<MerchantEntry>, m: u64, k: int)
    requires
        unique_merchants(s),
        0 <= k < s.len(),
        s[k].merchant == m,
    ensures
        seq_has_merchant(s, m),
        seq_merchant_idx(s, m) == k,
        seq_merchant_balance(s, m) == s[k].balance,
{
    assert(seq_has_merchant(s, m));
    let i = seq_merchant_idx(s, m);
    if i != k {
        if i < k {
            assert(s[i].merchant != s[k].merchant);
        } else {
            assert(s[k].merchant != s[i].merchant);
        }
    }
}

/// Overwriting the merchant entry at `k` with one for the same merchant
/// keeps merchants unique, stores the new balance, and leaves every other
/// merchant's balance untouched.
pub proof fn lemma_merchant_update(s: Seq<MerchantEntry>, k: int, e: MerchantEntry)
    requires
        unique_merchants(s),
        0 <= k < s.len(),
        s[k].merchant == e.merchant,
    ensures
        unique_merchants(s.update(k, e)),
        seq_merchant_balance(s.update(k, e), e.merchant) == e.balance,
        forall|m: u64|
            m != e.merchant ==> #[trigger] seq_merchant_balance(s.update(k, e), m)
                == seq_merchant_balance(s, m),
{
    let t = s.update(k, e);
    assert(unique_merchants(t));
    lemma_merchant_found(t, e.merchant, k);
    assert forall|m: u64| m != e.merchant implies #[trigger] seq_merchant_balance(t, m)
        == seq_merchant_balance(s, m) by {
        if seq_has_merchant(s, m) {
            let i = seq_merchant_idx(s, m);
            lemma_merchant_found(s, m, i);
            assert(t[i].merchant == m);
            lemma_merchant_found(t, m, i);
        } else {
            if seq_has_merchant(t, m) {
                let i = choose|i: int| 0 <= i < t.len() && t[i].merchant == m;
                assert(s[i].merchant == m);
            }
        }
    }
}

/// Appending an entry for a fresh merchant keeps merchants unique, stores
/// the new balance, and leaves every other merchant untouched.
pub proof fn lemma_merchant_push(s: Seq<MerchantEntry>, e: MerchantEntry)
    requires
        unique_merchants(s),
        !seq_has_merchant(s, e.merchant),
    ensures
        unique_merchants(s.push(e)),
        seq_merchant_balance(s.push(e), e.merchant) == e.balance,
        forall|m: u64|
            m != e.merchant ==> #[trigger] seq_merchant_balance(s.push(e), m)
                == seq_merchant_balance(s, m),
{
    let t = s.push(e);
    assert forall|i: int, j: int| 0 <= i < j < t.len() implies t[i].merchant != t[j].merchant by {
        if j == s.len() {
            assert(t[i] == s[i]);
            if t[i].merchant == e.merchant {
                assert(seq_has_merchant(s, e.merchant));
            }
        }
    }
    lemma_merchant_found(t, e.merchant, s.len() as int);
    assert forall|m: u64| m != e.merchant implies #[trigger] seq_merchant_balance(t, m)
        == seq_merchant_balance(s, m) by {
        if seq_has_merchant(s, m) {
            let i = seq_merchant_idx(s, m);
            lemma_merchant_found(s, m, i);
            assert(t[i].merchant == m);
            lemma_merchant_found(t, m, i);
        } else {
            if seq_has_merchant(t, m) {
                let i = choose|i: int| 0 <= i < t.len() && t[i].merchant == m;
                assert(i < s.len());
                assert(s[i].merchant == m);
            }
        }
    }
}

/// The whole vault: subscription store, merchant ledger, id counter and
/// configuration.
///
/// Fields are public so that contracts can speak about them; mutate the
/// state only through the methods, which preserve [`Vault::wf`] and route
/// every status change through the state machine.
pub struct Vault {
    /// The subscription store; entry ids are unique.
    pub subs: Vec<SubEntry>,
    /// Per-merchant accumulated balances; merchants are unique.
    pub merchants: Vec<MerchantEntry>,
    /// The next subscription id to allocate. Only ever increases.
    pub next_id: u32,
    /// The configured admin identity, once initialized.
    pub admin: Option<u64>,
    /// The configured settlement token, once initialized.
    pub token: Option<u64>,
    /// The configured minimum deposit, once initialized.
    pub min_topup: Option<i128>,
    /// Whether the vault is in emergency stop mode.
    pub stopped: bool,
}

impl Vault {
    /// Vault well-formedness: unique ids and merchants, every stored record
    /// well-formed, every merchant balance non-negative. Established by
    /// [`Vault::new`] and preserved by every method.
    pub open spec fn wf(self) -> bool {
        &&& unique_ids(self.subs@)
        &&& forall|i: int| 0 <= i < self.subs@.len() ==> (#[trigger] self.subs@[i].record).wf()
        &&& unique_merchants(self.merchants@)
        &&& forall|i: int| 0 <= i < self.merchants@.len() ==> (#[trigger] self.merchants@[i]).balance >= 0
    }

    /// A subscription with this id exists.
    pub open spec fn has_id(self, id: u32) -> bool {
        seq_has_id(self.subs@, id)
    }

    /// The record stored under this id.
    pub open spec fn record_of(self, id: u32) -> Subscription {
        seq_record_of(self.subs@, id)
    }

    /// The merchant's accumulated balance (0 if never credited).
    pub open spec fn merchant_balance_of(self, m: u64) -> i128 {
        seq_merchant_balance(self.merchants@, m)
    }

    /// The configuration slots and the id counter are the same in both
    /// states.
    pub open spec fn same_config(self, post: Vault) -> bool {
        &&& post.next_id == self.next_id
        &&& post.admin == self.admin
        &&& post.token == self.token
        &&& post.min_topup == self.min_topup
        &&& post.stopped == self.stopped
    }

    /// Every subscription other than `id` has the same presence and record
    /// in both states.
    pub open spec fn same_subs_except(self, post: Vault, id: u32) -> bool {
        &&& forall|j: u32| j != id ==> #[trigger] post.has_id(j) == self.has_id(j)
        &&& forall|j: u32|
            j != id && self.has_id(j) ==> #[trigger] post.record_of(j) == self.record_of(j)
    }

    /// Nothing at all changed.
    pub open spec fn state_eq(self, post: Vault) -> bool {
        &&& post.subs@ == self.subs@
        &&& post.merchants@ == self.merchants@
        &&& self.same_config(post)
    }

    /// A fresh, unconfigured, empty vault.
    pub fn new() -> (v: Vault)
        ensures
            v.wf(),
            v.subs@.len() == 0,
            v.merchants@.len() == 0,
            v.next_id == 0,
            v.admin is None,
            v.token is None,
            v.min_topup is None,
            !v.stopped,
            forall|id: u32| !#[trigger] v.has_id(id),
            forall|m: u64| #[trigger] v.merchant_balance_of(m) == 0,
    {
        let v = Vault {
            subs: Vec::new(),
            merchants: Vec::new(),
            next_id: 0,
            admin: None,
            token: None,
            min_topup: None,
            stopped: false,
        };
        proof {
            assert(forall|id: u32| !#[trigger] v.has_id(id));
            assert(forall|m: u64| !seq_has_merchant(v.merchants@, m));
        }
        v
    }

    /// Finds the store index of a subscription id.
    pub(crate) fn find_index(&self, id: u32) -> (r: Option<usize>)
        ensures
            match r {
                Some(k) => k < self.subs@.len() && self.subs@[k as int].id == id,
                None => !self.has_id(id),
            },
    {
        let n = self.subs.len();
        let mut k: usize = 0;
        while k < n
            invariant
                k <= n,
                n == self.subs@.len(),
                forall|j: int| 0 <= j < k ==> self.subs@[j].id != id,
            decreases n - k,
        {
            if self.subs[k].id == id {
                return Some(k);
            }
            k += 1;
        }
        None
    }

    /// Finds the ledger index of a merchant.
    pub(crate) fn find_merchant_index(&self, m: u64) -> (r: Option<usize>)
        ensures
            match r {
                Some(k) => k < self.merchants@.len() && self.merchants@[k as int].merchant == m,
                None => !seq_has_merchant(self.merchants@, m),
            },
    {
        let n = self.merchants.len();
        let mut k: usize = 0;
        while k < n
            invariant
                k <= n,
                n == self.merchants@.len(),
                forall|j: int| 0 <= j < k ==> self.merchants@[j].merchant != m,
            decreases n - k,
        {
            if self.merchants[k].merchant == m {
                return Some(k);
            }
            k += 1;
        }
        None
    }

    /// Reads a subscription by id.
    pub fn get_subscription(&self, subscription_id: u32) -> (r: Result<Subscription, Error>)
        requires
            self.wf(),
        ensures
            r is Ok <==> self.has_id(subscription_id),
            r is Ok ==> r == Ok::<Subscription, Error>(self.record_of(subscription_id)),
            r is Err ==> r == Err::<Subscription, Error>(Error::NotFound),
    {
        match self.find_index(subscription_id) {
            Some(k) => {
                proof {
                    lemma_id_found(self.subs@, subscription_id, k as int);
                }
                Ok(self.subs[k].record)
            },
            None => Err(Error::NotFound),
        }
    }

    /// Writes a whole subscription record under an id, inserting or
    /// replacing — the store's raw `set` operation. The record must be
    /// well-formed; nothing else about it is checked, so test and recovery
    /// tooling can seed arbitrary (well-formed) states.
    pub fn set_subscription(&mut self, subscription_id: u32, record: Subscription) -> (r: Result<
        (),
        Error,
    >)
        requires
            old(self).wf(),
        ensures
            final(self).wf(),
            record.amount <= 0 ==> r == Err::<(), Error>(Error::InvalidAmount) && old(self).state_eq(*final(self)),
            record.amount > 0 && record.prepaid_balance < 0 ==> r == Err::<(), Error>(
                Error::Underflow,
            ) && old(self).state_eq(*final(self)),
            record.wf() ==> {
                &&& r is Ok
                &&& final(self).has_id(subscription_id)
                &&& final(self).record_of(subscription_id) == record
                &&& old(self).same_subs_except(*final(self), subscription_id)
                &&& final(self).merchants@ == old(self).merchants@
                &&& old(self).same_config(*final(self))
            },
    {
        if record.amount <= 0 {
            return Err(Error::InvalidAmount);
        }
        if record.prepaid_balance < 0 {
            return Err(Error::Underflow);
        }
        let e = SubEntry { id: subscription_id, record };
        match self.find_index(subscription_id) {
            Some(k) => {
                let ghost s0 = self.subs@;
                self.subs[k] = e;
                proof {
                    lemma_id_update(s0, k as int, e);
                }
            },
            None => {
                let ghost s0 = self.subs@;
                self.subs.push(e);
                proof {
                    lemma_id_push(s0, e);
                }
            },
        }
        Ok(())
    }

    /// Initialize the vault configuration: settlement token, admin identity
    /// and minimum top-up.
    pub fn init(&mut self, token: u64, admin: u64, min_topup: i128) -> (r: Result<(), Error>)
        requires
            old(self).wf(),
        ensures
            r is Ok,
            final(self).wf(),
            final(self).admin == Some(admin),
            final(self).token == Some(token),
            final(self).min_topup == Some(min_topup),
            final(self).subs@ == old(self).subs@,
            final(self).merchants@ == old(self).merchants@,
            final(self).next_id == old(self).next_id,
            final(self).stopped == old(self).stopped,
    {
        self.token = Some(token);
        self.admin = Some(admin);
        self.min_topup = Some(min_topup);
        Ok(())
    }

    /// The stored admin identity, or `Unauthorized` when the vault is not
    /// configured.
    pub fn require_admin(&self) -> (r: Result<u64, Error>)
        ensures
            r == match self.admin {
                Some(a) => Ok::<u64, Error>(a),
                None => Err::<u64, Error>(Error::Unauthorized),
            },
    {
        match self.admin {
            Some(a) => Ok(a),
            None => Err(Error::Unauthorized),
        }
    }

    /// Reads the current admin identity.
    pub fn get_admin(&self) -> (r: Result<u64, Error>)
        ensures
            r == match self.admin {
                Some(a) => Ok::<u64, Error>(a),
                None => Err::<u64, Error>(Error::NotFound),
            },
    {
        match self.admin {
            Some(a) => Ok(a),
            None => Err(Error::NotFound),
        }
    }

    /// Rotates the admin to a new identity. Only the current admin may
    /// rotate; the old admin loses access immediately.
    pub fn rotate_admin(&mut self, current_admin: u64, new_admin: u64) -> (r: Result<(), Error>)
        requires
            old(self).wf(),
        ensures
            final(self).wf(),
            r is Ok <==> old(self).admin == Some(current_admin),
            r is Err ==> r == Err::<(), Error>(Error::Unauthorized) && old(self).state_eq(
                *final(self),
            ),
            r is Ok ==> {
                &&& final(self).admin == Some(new_admin)
                &&& final(self).subs@ == old(self).subs@
                &&& final(self).merchants@ == old(self).merchants@
                &&& final(self).next_id == old(self).next_id
                &&& final(self).token == old(self).token
                &&& final(self).min_topup == old(self).min_topup
                &&& final(self).stopped == old(self).stopped
            },
    {
        let stored = self.require_admin()?;
        if current_admin != stored {
            return Err(Error::Unauthorized);
        }
        self.admin = Some(new_admin);
        Ok(())
    }

    /// Updates the minimum top-up threshold. Admin only.
    pub fn set_min_topup(&mut self, admin: u64, min_topup: i128) -> (r: Result<(), Error>)
        requires
            old(self).wf(),
        ensures
            final(self).wf(),
            r is Ok <==> old(self).admin == Some(admin),
            r is Err ==> r == Err::<(), Error>(Error::Unauthorized) && old(self).state_eq(
                *final(self),
            ),
            r is Ok ==> {
                &&& final(self).min_topup == Some(min_topup)
                &&& final(self).subs@ == old(self).subs@
                &&& final(self).merchants@ == old(self).merchants@
                &&& final(self).next_id == old(self).next_id
                &&& final(self).admin == old(self).admin
                &&& final(self).token == old(self).token
                &&& final(self).stopped == old(self).stopped
            },
    {
        let stored = self.require_admin()?;
        if admin != stored {
            return Err(Error::Unauthorized);
        }
        self.min_topup = Some(min_topup);
        Ok(())
    }

    /// Reads the minimum top-up threshold.
    pub fn get_min_topup(&self) -> (r: Result<i128, Error>)
        ensures
            r == match self.min_topup {
                Some(m) => Ok::<i128, Error>(m),
                None => Err::<i128, Error>(Error::NotFound),
            },
    {
        match self.min_topup {
            Some(m) => Ok(m),
            None => Err(Error::NotFound),
        }
    }

    /// Whether the vault is in emergency stop mode.
    pub fn is_stopped(&self) -> (r: bool)
        ensures
            r == self.stopped,
    {
        self.stopped
    }

    /// Fails with `ContractStopped` while emergency stop is active.
    pub fn require_not_stopped(&self) -> (r: Result<(), Error>)
        ensures
            r is Ok <==> !self.stopped,
            r is Err ==> r == Err::<(), Error>(Error::ContractStopped),
    {
        if self.is_stopped() {
            Err(Error::ContractStopped)
        } else {
            Ok(())
        }
    }

    /// Enables emergency stop. Admin only.
    pub fn emergency_stop(&mut self, admin: u64) -> (r: Result<(), Error>)
        requires
            old(self).wf(),
        ensures
            final(self).wf(),
            r is Ok <==> old(self).admin == Some(admin),
            r is Err ==> r == Err::<(), Error>(Error::Unauthorized) && old(self).state_eq(
                *final(self),
            ),
            r is Ok ==> final(self).stopped && final(self).subs@ == old(self).subs@ && final(self).merchants@ == old(self).merchants@ && final(self).next_id == old(self).next_id
                && final(self).admin == old(self).admin && final(self).token == old(self).token
                && final(self).min_topup == old(self).min_topup,
    {
        let stored = self.require_admin()?;
        if admin != stored {
            return Err(Error::Unauthorized);
        }
        self.stopped = true;
        Ok(())
    }

    /// Disables emergency stop and restores normal operation. Admin only.
    pub fn resume_contract(&mut self, admin: u64) -> (r: Result<(), Error>)
        requires
            old(self).wf(),
        ensures
            final(self).wf(),
            r is Ok <==> old(self).admin == Some(admin),
            r is Err ==> r == Err::<(), Error>(Error::Unauthorized) && old(self).state_eq(
                *final(self),
            ),
            r is Ok ==> !final(self).stopped && final(self).subs@ == old(self).subs@ && final(self).merchants@ == old(self).merchants@ && final(self).next_id == old(self).next_id
                && final(self).admin == old(self).admin && final(self).token == old(self).token
                && final(self).min_topup == old(self).min_topup,
    {
        let stored = self.require_admin()?;
        if admin != stored {
            return Err(Error::Unauthorized);
        }
        self.stopped = false;
        Ok(())
    }

    /// The total number of subscriptions ever created through the allocator
    /// — the next id that would be issued. 0 before any creation.
    pub fn get_subscription_count(&self) -> (r: u32)
        ensures
            r == self.next_id,
    {
        self.next_id
    }

    /// Overwrites the id counter slot — the store's raw write to the counter.
    /// Intended for migration and test seeding; normal operation only ever
    /// advances the counter through [`Vault::create_subscription`].
    pub fn set_subscription_count(&mut self, count: u32)
        requires
            old(self).wf(),
        ensures
            final(self).wf(),
            final(self).next_id == count,
            final(self).subs@ == old(self).subs@,
            final(self).merchants@ == old(self).merchants@,
            final(self).admin == old(self).admin,
            final(self).token == old(self).token,
            final(self).min_topup == old(self).min_topup,
            final(self).stopped == old(self).stopped,
    {
        self.next_id = count;
    }

    /// Allocates the next unique subscription id.
    ///
    /// Ids start at 0 and increment by exactly 1 per successful call; they
    /// are never reused and never wrap. At the largest representable value
    /// the allocator fails with `SubscriptionLimitReached` and does not move.
    fn allocate_id(&mut self) -> (r: Result<u32, Error>)
        requires
            old(self).wf(),
        ensures
            final(self).wf(),
            final(self).subs@ == old(self).subs@,
            final(self).merchants@ == old(self).merchants@,
            final(self).admin == old(self).admin,
            final(self).token == old(self).token,
            final(self).min_topup == old(self).min_topup,
            final(self).stopped == old(self).stopped,
            old(self).next_id == u32::MAX ==> r == Err::<u32, Error>(
                Error::SubscriptionLimitReached,
            ) && final(self).next_id == old(self).next_id,
            old(self).next_id < u32::MAX ==> r == Ok::<u32, Error>(old(self).next_id) && final(self).next_id == old(self).next_id + 1,
    {
        let current = self.next_id;
        if current == u32::MAX {
            return Err(Error::SubscriptionLimitReached);
        }
        self.next_id = current + 1;
        Ok(current)
    }

    /// Creates a new subscription: validates the charge amount, allocates a
    /// fresh id (failing fast before any other state change), and stores the
    /// record with status `Active`, a zero prepaid balance, and the creation
    /// time as its initial `last_payment_timestamp`.
    pub fn create_subscription(
        &mut self,
        subscriber: u64,
        merchant: u64,
        amount: i128,
        interval_seconds: u64,
        usage_enabled: bool,
        expiration: Option<u64>,
        now: u64,
    ) -> (r: Result<u32, Error>)
        requires
            old(self).wf(),
        ensures
            final(self).wf(),
            amount <= 0 ==> r == Err::<u32, Error>(Error::InvalidAmount) && old(self).state_eq(
                *final(self),
            ),
            amount > 0 && old(self).next_id == u32::MAX ==> r == Err::<u32, Error>(
                Error::SubscriptionLimitReached,
            ) && old(self).state_eq(*final(self)),
            amount > 0 && old(self).next_id < u32::MAX ==> {
                &&& r == Ok::<u32, Error>(old(self).next_id)
                &&& final(self).next_id == old(self).next_id + 1
                &&& final(self).has_id(old(self).next_id)
                &&& final(self).record_of(old(self).next_id) == (Subscription {
                    subscriber,
                    merchant,
                    amount,
                    interval_seconds,
                    last_payment_timestamp: now,
                    status: SubscriptionStatus::Active,
                    prepaid_balance: 0,
                    usage_enabled,
                    expiration,
                })
                &&& old(self).same_subs_except(*final(self), old(self).next_id)
                &&& final(self).merchants@ == old(self).merchants@
                &&& final(self).admin == old(self).admin
                &&& final(self).token == old(self).token
                &&& final(self).min_topup == old(self).min_topup
                &&& final(self).stopped == old(self).stopped
            },
    {
        if amount <= 0 {
            return Err(Error::InvalidAmount);
        }
        // Allocate the id before any other side effect, so a limit failure
        // never leaves partially-created state.
        let id = self.allocate_id()?;
        let record = Subscription {
            subscriber,
            merchant,
            amount,
            interval_seconds,
            last_payment_timestamp: now,
            status: SubscriptionStatus::Active,
            prepaid_balance: 0,
            usage_enabled,
            expiration,
        };
        let e = SubEntry { id, record };
        match self.find_index(id) {
            Some(k) => {
                let ghost s0 = self.subs@;
                self.subs[k] = e;
                proof {
                    lemma_id_update(s0, k as int, e);
                }
            },
            None => {
                let ghost s0 = self.subs@;
                self.subs.push(e);
                proof {
                    lemma_id_push(s0, e);
                }
            },
        }
        Ok(id)
    }

    /// Deposits funds into a subscription's prepaid balance.
    ///
    /// Deposits below the configured minimum are refused. A deposit to a
    /// subscription in `InsufficientBalance` clears that state back to
    /// `Active`; a cancelled subscription accepts no deposits.
    pub fn deposit_funds(&mut self, subscription_id: u32, subscriber: u64, amount: i128) -> (r:
        Result<(), Error>)
        requires
            old(self).wf(),
        ensures
            final(self).wf(),
            old(self).same_subs_except(*final(self), subscription_id),
            final(self).merchants@ == old(self).merchants@,
            old(self).same_config(*final(self)),
            old(self).min_topup is None ==> r == Err::<(), Error>(Error::NotFound) && old(self).state_eq(*final(self)),
            old(self).min_topup matches Some(min) ==> {
                if amount < min {
                    r == Err::<(), Error>(Error::BelowMinimumTopup) && old(self).state_eq(
                        *final(self),
                    )
                } else if !old(self).has_id(subscription_id) {
                    r == Err::<(), Error>(Error::NotFound) && old(self).state_eq(*final(self))
                } else if old(self).record_of(subscription_id).subscriber != subscriber {
                    r == Err::<(), Error>(Error::Unauthorized) && old(self).state_eq(*final(self))
                } else if old(self).record_of(subscription_id).status
                    == SubscriptionStatus::Cancelled {
                    r == Err::<(), Error>(Error::InvalidStatusTransition) && old(self).state_eq(
                        *final(self),
                    )
                } else if old(self).record_of(subscription_id).prepaid_balance + amount
                    > i128::MAX {
                    r == Err::<(), Error>(Error::Overflow) && old(self).state_eq(*final(self))
                } else if amount < 0 {
                    r == Err::<(), Error>(Error::Underflow) && old(self).state_eq(*final(self))
                } else {
                    &&& r is Ok
                    &&& final(self).has_id(subscription_id)
                    &&& final(self).record_of(subscription_id) == (Subscription {
                        prepaid_balance: (old(self).record_of(subscription_id).prepaid_balance
                            + amount) as i128,
                        status: if old(self).record_of(subscription_id).status
                            == SubscriptionStatus::InsufficientBalance {
                            SubscriptionStatus::Active
                        } else {
                            old(self).record_of(subscription_id).status
                        },
                        ..old(self).record_of(subscription_id)
                    })
                }
            },
    {
        let min = match self.min_topup {
            Some(m) => m,
            None => {
                return Err(Error::NotFound);
            },
        };
        if amount < min {
            return Err(Error::BelowMinimumTopup);
        }
        let k = match self.find_index(subscription_id) {
            Some(k) => k,
            None => {
                return Err(Error::NotFound);
            },
        };
        proof {
            lemma_id_found(self.subs@, subscription_id, k as int);
        }
        let s = self.subs[k].record;
        if s.subscriber != subscriber {
            return Err(Error::Unauthorized);
        }
        if s.status == SubscriptionStatus::Cancelled {
            return Err(Error::InvalidStatusTransition);
        }
        let new_balance = match safe_add_balance(s.prepaid_balance, amount) {
            Ok(b) => b,
            Err(e) => {
                return Err(e);
            },
        };
        // A deposit clears the sticky InsufficientBalance state.
        let new_status = if s.status == SubscriptionStatus::InsufficientBalance {
            SubscriptionStatus::Active
        } else {
            s.status
        };
        proof {
            assert(transition_allowed(s.status, new_status));
        }
        let record = Subscription { prepaid_balance: new_balance, status: new_status, ..s };
        let e = SubEntry { id: subscription_id, record };
        let ghost s0 = self.subs@;
        self.subs[k] = e;
        proof {
            lemma_id_update(s0, k as int, e);
        }
        Ok(())
    }

    /// Moves a subscription to a new status after validating the transition
    /// against the state machine. Shared by pause, resume and cancel.
    fn transition_status(
        &mut self,
        subscription_id: u32,
        authorizer: u64,
        target: SubscriptionStatus,
    ) -> (r: Result<(), Error>)
        requires
            old(self).wf(),
            target != SubscriptionStatus::Cancelled,
        ensures
            final(self).wf(),
            old(self).same_subs_except(*final(self), subscription_id),
            final(self).merchants@ == old(self).merchants@,
            old(self).same_config(*final(self)),
            !old(self).has_id(subscription_id) ==> r == Err::<(), Error>(Error::NotFound) && old(self).state_eq(*final(self)),
            old(self).has_id(subscription_id) && old(self).record_of(subscription_id).subscriber
                != authorizer ==> r == Err::<(), Error>(Error::Unauthorized) && old(self).state_eq(
                *final(self),
            ),
            old(self).has_id(subscription_id) && old(self).record_of(subscription_id).subscriber
                == authorizer ==> {
                if transition_allowed(old(self).record_of(subscription_id).status, target) {
                    &&& r is Ok
                    &&& final(self).has_id(subscription_id)
                    &&& final(self).record_of(subscription_id) == (Subscription {
                        status: target,
                        ..old(self).record_of(subscription_id)
                    })
                } else {
                    r == Err::<(), Error>(Error::InvalidStatusTransition) && old(self).state_eq(
                        *final(self),
                    )
                }
            },
    {
        let k = match self.find_index(subscription_id) {
            Some(k) => k,
            None => {
                return Err(Error::NotFound);
            },
        };
        proof {
            lemma_id_found(self.subs@, subscription_id, k as int);
        }
        let s = self.subs[k].record;
        if s.subscriber != authorizer {
            return Err(Error::Unauthorized);
        }
        validate_status_transition(&s.status, &target)?;
        let record = Subscription { status: target, ..s };
        let e = SubEntry { id: subscription_id, record };
        let ghost s0 = self.subs@;
        self.subs[k] = e;
        proof {
            lemma_id_update(s0, k as int, e);
        }
        Ok(())
    }

    /// Pauses a subscription: no charges until resumed. Allowed from
    /// `Active` (and idempotently from `Paused`); only the subscriber may
    /// pause.
    pub fn pause_subscription(&mut self, subscription_id: u32, authorizer: u64) -> (r: Result<
        (),
        Error,
    >)
        requires
            old(self).wf(),
        ensures
            final(self).wf(),
            old(self).same_subs_except(*final(self), subscription_id),
            final(self).merchants@ == old(self).merchants@,
            old(self).same_config(*final(self)),
            !old(self).has_id(subscription_id) ==> r == Err::<(), Error>(Error::NotFound) && old(self).state_eq(*final(self)),
            old(self).has_id(subscription_id) && old(self).record_of(subscription_id).subscriber
                != authorizer ==> r == Err::<(), Error>(Error::Unauthorized) && old(self).state_eq(
                *final(self),
            ),
            old(self).has_id(subscription_id) && old(self).record_of(subscription_id).subscriber
                == authorizer ==> {
                if transition_allowed(
                    old(self).record_of(subscription_id).status,
                    SubscriptionStatus::Paused,
                ) {
                    &&& r is Ok
                    &&& final(self).record_of(subscription_id) == (Subscription {
                        status: SubscriptionStatus::Paused,
                        ..old(self).record_of(subscription_id)
                    })
                } else {
                    r == Err::<(), Error>(Error::InvalidStatusTransition) && old(self).state_eq(
                        *final(self),
                    )
                }
            },
    {
        self.transition_status(subscription_id, authorizer, SubscriptionStatus::Paused)
    }

    /// Resumes a subscription to `Active`. Allowed from `Paused` and
    /// `InsufficientBalance` (and idempotently from `Active`); only the
    /// subscriber may resume.
    pub fn resume_subscription(&mut self, subscription_id: u32, authorizer: u64) -> (r: Result<
        (),
        Error,
    >)
        requires
            old(self).wf(),
        ensures
            final(self).wf(),
            old(self).same_subs_except(*final(self), subscription_id),
            final(self).merchants@ == old(self).merchants@,
            old(self).same_config(*final(self)),
            !old(self).has_id(subscription_id) ==> r == Err::<(), Error>(Error::NotFound) && old(self).state_eq(*final(self)),
            old(self).has_id(subscription_id) && old(self).record_of(subscription_id).subscriber
                != authorizer ==> r == Err::<(), Error>(Error::Unauthorized) && old(self).state_eq(
                *final(self),
            ),
            old(self).has_id(subscription_id) && old(self).record_of(subscription_id).subscriber
                == authorizer ==> {
                if transition_allowed(
                    old(self).record_of(subscription_id).status,
                    SubscriptionStatus::Active,
                ) {
                    &&& r is Ok
                    &&& final(self).record_of(subscription_id) == (Subscription {
                        status: SubscriptionStatus::Active,
                        ..old(self).record_of(subscription_id)
                    })
                } else {
                    r == Err::<(), Error>(Error::InvalidStatusTransition) && old(self).state_eq(
                        *final(self),
                    )
                }
            },
    {
        self.transition_status(subscription_id, authorizer, SubscriptionStatus::Active)
    }

    /// Cancels a subscription: the terminal mutation. Allowed from every
    /// status; only the subscriber may cancel. The remaining prepaid balance
    /// is released for refund — it is returned and the stored balance drops
    /// to zero, so no field changes after cancellation. The host transfers
    /// the refund back to the subscriber.
    pub fn cancel_subscription(&mut self, subscription_id: u32, authorizer: u64) -> (r: Result<
        i128,
        Error,
    >)
        requires
            old(self).wf(),
        ensures
            final(self).wf(),
            old(self).same_subs_except(*final(self), subscription_id),
            final(self).merchants@ == old(self).merchants@,
            old(self).same_config(*final(self)),
            !old(self).has_id(subscription_id) ==> r == Err::<i128, Error>(Error::NotFound) && old(self).state_eq(*final(self)),
            old(self).has_id(subscription_id) && old(self).record_of(subscription_id).subscriber
                != authorizer ==> r == Err::<i128, Error>(Error::Unauthorized) && old(self).state_eq(*final(self)),
            old(self).has_id(subscription_id) && old(self).record_of(subscription_id).subscriber
                == authorizer ==> {
                &&& r == Ok::<i128, Error>(old(self).record_of(subscription_id).prepaid_balance)
                &&& final(self).record_of(subscription_id) == (Subscription {
                    status: SubscriptionStatus::Cancelled,
                    prepaid_balance: 0,
                    ..old(self).record_of(subscription_id)
                })
            },
    {
        let k = match self.find_index(subscription_id) {
            Some(k) => k,
            None => {
                return Err(Error::NotFound);
            },
        };
        proof {
            lemma_id_found(self.subs@, subscription_id, k as int);
        }
        let s = self.subs[k].record;
        if s.subscriber != authorizer {
            return Err(Error::Unauthorized);
        }
        // Every status may move to Cancelled (idempotently from Cancelled
        // itself, where the balance is already zero).
        proof {
            assert(transition_allowed(s.status, SubscriptionStatus::Cancelled));
        }
        let refund = s.prepaid_balance;
        let record = Subscription {
            status: SubscriptionStatus::Cancelled,
            prepaid_balance: 0,
            ..s
        };
        let e = SubEntry { id: subscription_id, record };
        let ghost s0 = self.subs@;
        self.subs[k] = e;
        proof {
            lemma_id_update(s0, k as int, e);
        }
        Ok(refund)
    }

    /// Reads a merchant's accumulated balance.
    pub fn get_merchant_balance(&self, merchant: u64) -> (r: i128)
        requires
            self.wf(),
        ensures
            r == self.merchant_balance_of(merchant),
    {
        match self.find_merchant_index(merchant) {
            Some(k) => {
                proof {
                    lemma_merchant_found(self.merchants@, merchant, k as int);
                }
                self.merchants[k].balance
            },
            None => 0,
        }
    }

    /// Credits a merchant's accumulator. Fails closed with `Overflow` when
    /// the accumulator cannot hold the sum; nothing changes on failure.
    pub(crate) fn credit_merchant(&mut self, merchant: u64, amount: i128) -> (r: Result<(), Error>)
        requires
            old(self).wf(),
            amount > 0,
        ensures
            final(self).wf(),
            final(self).subs@ == old(self).subs@,
            old(self).same_config(*final(self)),
            old(self).merchant_balance_of(merchant) + amount > i128::MAX ==> r == Err::<(), Error>(
                Error::Overflow,
            ) && final(self).merchants@ == old(self).merchants@,
            old(self).merchant_balance_of(merchant) + amount <= i128::MAX ==> {
                &&& r is Ok
                &&& final(self).merchant_balance_of(merchant) == old(self).merchant_balance_of(
                    merchant,
                ) + amount
                &&& forall|m: u64|
                    m != merchant ==> #[trigger] final(self).merchant_balance_of(m) == old(self).merchant_balance_of(m)
            },
    {
        match self.find_merchant_index(merchant) {
            Some(k) => {
                proof {
                    lemma_merchant_found(self.merchants@, merchant, k as int);
                }
                let bal = self.merchants[k].balance;
                let new_bal = match safe_add_balance(bal, amount) {
                    Ok(b) => b,
                    Err(_) => {
                        return Err(Error::Overflow);
                    },
                };
                let e = MerchantEntry { merchant, balance: new_bal };
                let ghost m0 = self.merchants@;
                self.merchants[k] = e;
                proof {
                    lemma_merchant_update(m0, k as int, e);
                }
                Ok(())
            },
            None => {
                let e = MerchantEntry { merchant, balance: amount };
                let ghost m0 = self.merchants@;
                self.merchants.push(e);
                proof {
                    lemma_merchant_push(m0, e);
                }
                Ok(())
            },
        }
    }

    /// Validates an admin recovery of stranded funds and produces its audit
    /// record. The vault state is deliberately untouched: recovery moves
    /// value the vault holds outside the subscription ledger, so it can
    /// never manipulate subscription accounting. The host performs the
    /// transfer and publishes the event.
    pub fn recover_stranded_funds(
        &self,
        admin: u64,
        recipient: u64,
        amount: i128,
        reason: RecoveryReason,
        now: u64,
    ) -> (r: Result<RecoveryEvent, Error>)
        requires
            self.wf(),
        ensures
            self.admin != Some(admin) ==> r == Err::<RecoveryEvent, Error>(Error::Unauthorized),
            self.admin == Some(admin) && amount <= 0 ==> r == Err::<RecoveryEvent, Error>(
                Error::InvalidRecoveryAmount,
            ),
            self.admin == Some(admin) && amount > 0 ==> r == Ok::<RecoveryEvent, Error>(
                RecoveryEvent { admin, recipient, amount, reason, timestamp: now },
            ),
    {
        let stored = self.require_admin()?;
        if admin != stored {
            return Err(Error::Unauthorized);
        }
        if amount <= 0 {
            return Err(Error::InvalidRecoveryAmount);
        }
        Ok(RecoveryEvent { admin, recipient, amount, reason, timestamp: now })
    }
}

} // verus!
