use vstd::prelude::*;

use crate::errors::ErrorCode;

verus! {

/// Moves `amount` from a student's external balance into course custody, as
/// one all-or-nothing step: it fails, leaving both balances untouched, when
/// the balance cannot cover the amount or the custody balance would
/// overflow; such a transfer failure surfaces as `InsufficientDeposit`.
pub fn lock(balance: &mut u64, custody: &mut u64, amount: u64) -> (r: Result<(), ErrorCode>)
    ensures
        r == (if *old(balance) >= amount && *old(custody) + amount <= u64::MAX {
            Ok::<(), ErrorCode>(())
        } else {
            Err::<(), ErrorCode>(ErrorCode::InsufficientDeposit)
        }),
        r is Ok ==> *final(balance) == *old(balance) - amount && *final(custody) == *old(custody)
            + amount,
        r is Err ==> *final(balance) == *old(balance) && *final(custody) == *old(custody),
{
    if *balance < amount {
        return Err(ErrorCode::InsufficientDeposit);
    }
    if amount > u64::MAX - *custody {
        return Err(ErrorCode::InsufficientDeposit);
    }
    *balance = *balance - amount;
    *custody = *custody + amount;
    Ok(())
}

/// Moves `amount` from course custody back into the student's external
/// balance, as one all-or-nothing step. The caller establishes that custody
/// covers the amount and that the balance cannot overflow.
pub fn release(custody: &mut u64, balance: &mut u64, amount: u64)
    requires
        *old(custody) >= amount,
        *old(balance) + amount <= u64::MAX,
    ensures
        *final(custody) == *old(custody) - amount,
        *final(balance) == *old(balance) + amount,
{
    *custody = *custody - amount;
    *balance = *balance + amount;
}

} // verus!
