//! Helpers for the credit-token economy.

use crate::errors::AcademicChainError;
use vstd::prelude::*;

verus! {

/// Total native-currency cost of `amount` credits at `price_per_credit`
/// units each; fails exactly when the product does not fit.
pub fn calculate_credit_cost(amount: u64, price_per_credit: u64) -> (r: Result<
    u64,
    AcademicChainError,
>)
    ensures
        amount * price_per_credit <= u64::MAX ==> r == Ok::<u64, AcademicChainError>(
            (amount * price_per_credit) as u64,
        ),
        amount * price_per_credit > u64::MAX ==> r == Err::<u64, AcademicChainError>(
            AcademicChainError::ArithmeticOverflow,
        ),
{
    match amount.checked_mul(price_per_credit) {
        Some(total) => Ok(total),
        None => Err(AcademicChainError::ArithmeticOverflow),
    }
}

} // verus!
