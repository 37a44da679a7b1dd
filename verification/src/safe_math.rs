//! Checked 128-bit signed arithmetic for balances.
//!
//! Every increment or decrement of a balance anywhere in the vault passes
//! through one of these primitives; no balance field is ever mutated by an
//! unguarded operator.

use vstd::prelude::*;

use crate::errors::Error;

verus! {

/// What [`safe_add`] returns: the mathematical sum when it is representable
/// as a signed 128-bit value, and `Overflow` whenever the addition wraps in
/// either direction.
pub open spec fn spec_safe_add(a: i128, b: i128) -> Result<i128, Error> {
    if a + b > i128::MAX || a + b < i128::MIN {
        Err(Error::Overflow)
    } else {
        Ok((a + b) as i128)
    }
}

/// What [`safe_sub`] returns: the mathematical difference when
/// representable, and `Underflow` whenever the subtraction wraps in either
/// direction.
pub open spec fn spec_safe_sub(a: i128, b: i128) -> Result<i128, Error> {
    if a - b > i128::MAX || a - b < i128::MIN {
        Err(Error::Underflow)
    } else {
        Ok((a - b) as i128)
    }
}

/// What [`safe_add_balance`] returns: as [`spec_safe_add`], but a negative
/// `amount` is refused outright — a balance may never be credited with a
/// negative amount.
pub open spec fn spec_safe_add_balance(balance: i128, amount: i128) -> Result<i128, Error> {
    if amount < 0 {
        Err(Error::Underflow)
    } else {
        spec_safe_add(balance, amount)
    }
}

/// What [`safe_sub_balance`] returns: the debited balance, refusing a
/// negative `amount` and refusing a result that would leave the balance
/// negative. An exact-zero result is valid.
pub open spec fn spec_safe_sub_balance(balance: i128, amount: i128) -> Result<i128, Error> {
    if amount < 0 {
        Err(Error::Underflow)
    } else if balance - amount < 0 {
        Err(Error::Underflow)
    } else {
        Ok((balance - amount) as i128)
    }
}

/// Checked addition: `Err(Overflow)` on wrap, no implicit sign constraint.
pub fn safe_add(a: i128, b: i128) -> (r: Result<i128, Error>)
    ensures
        r == spec_safe_add(a, b),
{
    match a.checked_add(b) {
        Some(v) => Ok(v),
        None => Err(Error::Overflow),
    }
}

/// Checked subtraction: `Err(Underflow)` on wrap, no implicit sign
/// constraint.
pub fn safe_sub(a: i128, b: i128) -> (r: Result<i128, Error>)
    ensures
        r == spec_safe_sub(a, b),
{
    match a.checked_sub(b) {
        Some(v) => Ok(v),
        None => Err(Error::Underflow),
    }
}

/// Credits a balance: checked addition that additionally rejects a negative
/// `amount` with `Err(Underflow)`.
pub fn safe_add_balance(balance: i128, amount: i128) -> (r: Result<i128, Error>)
    ensures
        r == spec_safe_add_balance(balance, amount),
{
    if amount < 0 {
        Err(Error::Underflow)
    } else {
        safe_add(balance, amount)
    }
}

/// Debits a balance: checked subtraction that additionally rejects a
/// negative `amount` and a result that would leave the balance negative.
pub fn safe_sub_balance(balance: i128, amount: i128) -> (r: Result<i128, Error>)
    ensures
        r == spec_safe_sub_balance(balance, amount),
{
    if amount < 0 {
        return Err(Error::Underflow);
    }
    match safe_sub(balance, amount) {
        Ok(v) => {
            if v < 0 {
                Err(Error::Underflow)
            } else {
                Ok(v)
            }
        },
        Err(e) => Err(e),
    }
}

/// Rejects a negative value with `Err(Underflow)`.
pub fn validate_non_negative(x: i128) -> (r: Result<(), Error>)
    ensures
        r is Ok <==> x >= 0,
        r is Err ==> r == Err::<(), Error>(Error::Underflow),
{
    if x < 0 {
        Err(Error::Underflow)
    } else {
        Ok(())
    }
}

/// Law: balance arithmetic round-trips. For all non-negative `a`, `b` whose
/// sum is representable, crediting `b` and then debiting `b` yields `a`
/// again; adding 1 to the largest value overflows; and debiting more than
/// the balance always underflows.
pub proof fn lemma_safe_math_round_trip(a: i128, b: i128, x: i128, y: i128)
    requires
        a >= 0,
        b >= 0,
        a + b <= i128::MAX,
        y > x,
    ensures
        spec_safe_add_balance(a, b) == Ok::<i128, Error>((a + b) as i128),
        spec_safe_sub_balance((a + b) as i128, b) == Ok::<i128, Error>(a),
        spec_safe_add(i128::MAX, 1) == Err::<i128, Error>(Error::Overflow),
        spec_safe_sub_balance(x, y) == Err::<i128, Error>(Error::Underflow),
{
}

} // verus!
