use vstd::prelude::*;

verus! {

/// The share of `amount` that `percent` percent stands for.
///
/// The quotient of `percent * amount / 100` is rounded up by one when the
/// remainder is not zero and `(amount * 10) / remainder` exceeds 4. This is
/// not ordinary rounding: the threshold compares against `amount`, not
/// against `percent`.
pub open spec fn share(percent: int, amount: int) -> int {
    let product = percent * amount;
    let quotient = product / 100;
    let remainder = product % 100;
    if remainder != 0 && (amount * 10) / remainder > 4 {
        quotient + 1
    } else {
        quotient
    }
}

/// Computes `share(percent_value, amount)`.
///
/// The product `percent_value * amount` must fit in a `u128`.
pub fn percent_calculation(percent_value: &u128, amount: &u128) -> (r: u128)
    requires
        *percent_value * *amount <= u128::MAX,
    ensures
        r == share(*percent_value as int, *amount as int),
        r == (*percent_value * *amount) / 100 || r == (*percent_value * *amount) / 100 + 1,
{
    let product: u128 = *percent_value * *amount;
    let mut percent_amount: u128 = product / 100;
    let remainder: u128 = product % 100;
    if remainder != 0 {
        let round_up: bool = if *amount <= u128::MAX / 10 {
            (*amount * 10) / remainder > 4
        } else {
            // Here `amount * 10` exceeds the width, and since the remainder
            // is below 100 the quotient is far above the threshold.
            assert((*amount as int * 10) / (remainder as int) > 4) by (nonlinear_arith)
                requires
                    *amount as int > u128::MAX as int / 10,
                    0 < remainder < 100,
            ;
            true
        };
        if round_up {
            percent_amount = percent_amount + 1;
        }
    }
    percent_amount
}

} // verus!
