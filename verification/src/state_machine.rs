//! The subscription status state machine.
//!
//! A pure transition table over the four lifecycle states. Every status
//! mutation elsewhere in the crate routes through this table; no hidden
//! transitions exist.

use vstd::prelude::*;

use crate::errors::Error;
use crate::types::SubscriptionStatus;

verus! {

/// The transition table: whether a status change from `from` to `to` is
/// allowed.
///
/// - a transition from any status to itself is allowed (idempotent no-op);
/// - `Active` may move to `Paused`, `Cancelled` or `InsufficientBalance`;
/// - `Paused` may move to `Active` or `Cancelled`;
/// - `InsufficientBalance` may move to `Active` or `Cancelled`;
/// - `Cancelled` is terminal: no transition to a different status is allowed;
/// - everything else (e.g. `Paused` to `InsufficientBalance`) is refused.
pub open spec fn transition_allowed(from: SubscriptionStatus, to: SubscriptionStatus) -> bool {
    ||| from == to
    ||| match from {
        SubscriptionStatus::Active => {
            ||| to == SubscriptionStatus::Paused
            ||| to == SubscriptionStatus::Cancelled
            ||| to == SubscriptionStatus::InsufficientBalance
        },
        SubscriptionStatus::Paused => {
            ||| to == SubscriptionStatus::Active
            ||| to == SubscriptionStatus::Cancelled
        },
        SubscriptionStatus::Cancelled => false,
        SubscriptionStatus::InsufficientBalance => {
            ||| to == SubscriptionStatus::Active
            ||| to == SubscriptionStatus::Cancelled
        },
    }
}

/// Validates a status transition against the state machine table.
///
/// Returns `Ok(())` exactly when [`transition_allowed`] holds, and
/// `Err(Error::InvalidStatusTransition)` otherwise.
pub fn validate_status_transition(from: &SubscriptionStatus, to: &SubscriptionStatus) -> (r:
    Result<(), Error>)
    ensures
        r is Ok <==> transition_allowed(*from, *to),
        r is Err ==> r == Err::<(), Error>(Error::InvalidStatusTransition),
{
    // Same status is always allowed (idempotent).
    if *from == *to {
        return Ok(());
    }
    let valid = match from {
        SubscriptionStatus::Active => matches!(
            to,
            SubscriptionStatus::Paused
                | SubscriptionStatus::Cancelled
                | SubscriptionStatus::InsufficientBalance
        ),
        SubscriptionStatus::Paused => matches!(
            to,
            SubscriptionStatus::Active | SubscriptionStatus::Cancelled
        ),
        SubscriptionStatus::Cancelled => false,
        SubscriptionStatus::InsufficientBalance => matches!(
            to,
            SubscriptionStatus::Active | SubscriptionStatus::Cancelled
        ),
    };
    if valid {
        Ok(())
    } else {
        Err(Error::InvalidStatusTransition)
    }
}

/// Returns all valid target statuses, other than the status itself, for a
/// given current status, in a fixed order. Useful for introspection and UI.
pub fn get_allowed_transitions(status: &SubscriptionStatus) -> (targets: Vec<SubscriptionStatus>)
    ensures
        forall|t: SubscriptionStatus| #[trigger]
            targets@.contains(t) <==> (t != *status && transition_allowed(*status, t)),
        forall|i: int, j: int| 0 <= i < j < targets@.len() ==> targets@[i] != targets@[j],
{
    let mut targets: Vec<SubscriptionStatus> = Vec::new();
    match status {
        SubscriptionStatus::Active => {
            targets.push(SubscriptionStatus::Paused);
            targets.push(SubscriptionStatus::Cancelled);
            targets.push(SubscriptionStatus::InsufficientBalance);
        },
        SubscriptionStatus::Paused => {
            targets.push(SubscriptionStatus::Active);
            targets.push(SubscriptionStatus::Cancelled);
        },
        SubscriptionStatus::Cancelled => {},
        SubscriptionStatus::InsufficientBalance => {
            targets.push(SubscriptionStatus::Active);
            targets.push(SubscriptionStatus::Cancelled);
        },
    }
    proof {
        assert forall|t: SubscriptionStatus| #[trigger]
            targets@.contains(t) <==> (t != *status && transition_allowed(*status, t)) by {
            if t != *status && transition_allowed(*status, t) {
                match *status {
                    SubscriptionStatus::Active => {
                        if t == SubscriptionStatus::Paused {
                            assert(targets@[0] == t);
                        } else if t == SubscriptionStatus::Cancelled {
                            assert(targets@[1] == t);
                        } else {
                            assert(targets@[2] == t);
                        }
                    },
                    SubscriptionStatus::Paused => {
                        if t == SubscriptionStatus::Active {
                            assert(targets@[0] == t);
                        } else {
                            assert(targets@[1] == t);
                        }
                    },
                    SubscriptionStatus::Cancelled => {},
                    SubscriptionStatus::InsufficientBalance => {
                        if t == SubscriptionStatus::Active {
                            assert(targets@[0] == t);
                        } else {
                            assert(targets@[1] == t);
                        }
                    },
                }
            }
        }
    }
    targets
}

/// Checks whether a transition is valid, without constructing an error.
///
/// Boolean convenience wrapper around [`validate_status_transition`].
pub fn can_transition(from: &SubscriptionStatus, to: &SubscriptionStatus) -> (r: bool)
    ensures
        r == transition_allowed(*from, *to),
{
    validate_status_transition(from, to).is_ok()
}

/// Law: the same-state transition is allowed for every status — repeating a
/// transition a record has already made is a harmless no-op.
pub proof fn lemma_same_state_transition_allowed()
    ensures
        forall|s: SubscriptionStatus| #[trigger] transition_allowed(s, s),
{
}

/// Law: `Cancelled` is terminal — every transition from `Cancelled` to a
/// different status is refused by the table.
pub proof fn lemma_cancelled_is_terminal()
    ensures
        forall|t: SubscriptionStatus|
            t != SubscriptionStatus::Cancelled ==> !#[trigger] transition_allowed(
                SubscriptionStatus::Cancelled,
                t,
            ),
{
}

} // verus!
