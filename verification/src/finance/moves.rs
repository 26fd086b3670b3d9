//! Moves inside one wallet: setting funds aside, and giving them back.
use vstd::prelude::*;

use crate::finance::ledger::Wallet;

verus! {

/// The nearest number that 64 bits hold.
pub open spec fn clamped(n: int) -> int {
    if n > i64::MAX {
        i64::MAX as int
    } else if n < i64::MIN {
        i64::MIN as int
    } else {
        n
    }
}

/// The difference of two numbers, as near as 64 bits hold it.
pub fn clamped_sub(a: i64, b: i64) -> (r: i64)
    ensures
        r == clamped(a - b),
{
    let d: i128 = a as i128 - b as i128;
    if d > i64::MAX as i128 {
        i64::MAX
    } else if d < i64::MIN as i128 {
        i64::MIN
    } else {
        d as i64
    }
}

/// The sum of two numbers, as near as 64 bits hold it.
pub fn clamped_add(a: i64, b: i64) -> (r: i64)
    ensures
        r == clamped(a + b),
{
    let d: i128 = a as i128 + b as i128;
    if d > i64::MAX as i128 {
        i64::MAX
    } else if d < i64::MIN as i128 {
        i64::MIN
    } else {
        d as i64
    }
}

/// The part of a debit that withdrawable funds must cover. Funds that cannot be withdrawn
/// are used first.
pub open spec fn withdrawable_part(balance: int, withdrawable: int, amount: int) -> int {
    let rest = clamped(amount - clamped(balance - withdrawable));
    if rest > 0 {
        rest
    } else {
        0
    }
}

/// The withdrawable amount to deduct for a debit.
pub fn withdrawable_debit_portion(balance: i64, withdrawable: i64, amount: i64) -> (r: i64)
    ensures
        r == withdrawable_part(balance as int, withdrawable as int, amount as int),
{
    let rest: i64 = clamped_sub(amount, clamped_sub(balance, withdrawable));
    if rest > 0 {
        rest
    } else {
        0
    }
}

/// Moving `amount` from the available balance to the held funds: the wallet after it, and
/// how much of it was withdrawable. `insufficient` is the refusal where the balance does
/// not cover it.
pub open spec fn set_aside(w: Wallet, amount: int, insufficient: Seq<char>) -> Result<
    (Wallet, int),
    Seq<char>,
> {
    let balance = w.balance->0;
    let part = withdrawable_part(balance as int, w.withdrawable as int, amount);
    if w.withdrawable < 0 {
        Err("invalid finance counter"@)
    } else if w.withdrawable > balance {
        Err("withdrawable balance exceeds available balance"@)
    } else if amount > balance {
        Err(insufficient)
    } else if w.held < 0 {
        Err("invalid held balance"@)
    } else if w.held + amount > i64::MAX {
        Err("held balance overflow"@)
    } else {
        Ok(
            (
                Wallet {
                    balance: Some((balance - amount) as i64),
                    withdrawable: (w.withdrawable - part) as i64,
                    held: (w.held + amount) as i64,
                    ..w
                },
                part,
            ),
        )
    }
}

/// Move `amount` from the available balance to the held funds.
pub fn set_funds_aside(w: Wallet, amount: i64, insufficient: &str) -> (r: Result<
    (Wallet, i64),
    String,
>)
    requires
        w.balance is Some,
        amount >= 0,
    ensures
        match r {
            Ok((next, part)) => set_aside(w, amount as int, insufficient@) == Ok::<
                (Wallet, int),
                Seq<char>,
            >((next, part as int)) && 0 <= part <= amount,
            Err(e) => set_aside(w, amount as int, insufficient@) == Err::<(Wallet, int), Seq<char>>(
                e@,
            ),
        },
{
    let balance: i64 = match w.balance {
        Some(b) => b,
        None => 0,
    };
    if w.withdrawable < 0 {
        return Err("invalid finance counter".to_owned());
    }
    if w.withdrawable > balance {
        return Err("withdrawable balance exceeds available balance".to_owned());
    }
    if amount > balance {
        return Err(insufficient.to_owned());
    }
    if w.held < 0 {
        return Err("invalid held balance".to_owned());
    }
    let held: i64 = match w.held.checked_add(amount) {
        Some(v) => v,
        None => {
            return Err("held balance overflow".to_owned());
        },
    };
    let part: i64 = withdrawable_debit_portion(balance, w.withdrawable, amount);
    Ok(
        (
            Wallet {
                balance: Some(balance - amount),
                withdrawable: w.withdrawable - part,
                held,
                ..w
            },
            part,
        ),
    )
}

/// Ending a set-aside of `released` held funds with `refund` of it going back to the
/// balance, `back` of which may be withdrawn again.
pub open spec fn given_back(w: Wallet, refund: int, back: int, released: int) -> Result<
    Wallet,
    Seq<char>,
> {
    if w.balance is None {
        Err("payer creature not found"@)
    } else if w.balance->0 + refund > i64::MAX {
        Err("payer balance overflow"@)
    } else if w.withdrawable < 0 {
        Err("invalid finance counter"@)
    } else if w.withdrawable + back > i64::MAX {
        Err("withdrawable refund overflow"@)
    } else if w.withdrawable + back < 0 {
        Err("withdrawable balance underflow"@)
    } else if w.held < 0 {
        Err("invalid held balance"@)
    } else if w.held - released < 0 {
        Err("held balance underflow"@)
    } else {
        Ok(
            Wallet {
                balance: Some((w.balance->0 + refund) as i64),
                withdrawable: (w.withdrawable + back) as i64,
                held: (w.held - released) as i64,
                ..w
            },
        )
    }
}

/// End a set-aside.
pub fn give_funds_back(w: Wallet, refund: i64, back: i64, released: i64) -> (r: Result<
    Wallet,
    String,
>)
    requires
        refund >= 0,
        released >= 0,
    ensures
        match r {
            Ok(next) => given_back(w, refund as int, back as int, released as int) == Ok::<
                Wallet,
                Seq<char>,
            >(next),
            Err(e) => given_back(w, refund as int, back as int, released as int) == Err::<
                Wallet,
                Seq<char>,
            >(e@),
        },
{
    let balance: i64 = match w.balance {
        Some(b) => b,
        None => {
            return Err("payer creature not found".to_owned());
        },
    };
    let balance: i64 = match balance.checked_add(refund) {
        Some(v) => v,
        None => {
            return Err("payer balance overflow".to_owned());
        },
    };
    if w.withdrawable < 0 {
        return Err("invalid finance counter".to_owned());
    }
    let withdrawable: i64 = match w.withdrawable.checked_add(back) {
        Some(v) => v,
        None => {
            return Err("withdrawable refund overflow".to_owned());
        },
    };
    if withdrawable < 0 {
        return Err("withdrawable balance underflow".to_owned());
    }
    if w.held < 0 {
        return Err("invalid held balance".to_owned());
    }
    let held: i64 = w.held - released;
    if held < 0 {
        return Err("held balance underflow".to_owned());
    }
    Ok(Wallet { balance: Some(balance), withdrawable, held, ..w })
}

/// What a wallet owns, whoever may use it now: its balance, what is held of it, what is
/// on its way out, less its debt.
pub open spec fn assets(w: Wallet) -> int {
    (match w.balance {
        Some(b) => b as int,
        None => 0,
    }) + w.held + w.payout_held - w.debt
}

/// Whether no more may be withdrawn than is available.
pub open spec fn is_covered(w: Wallet) -> bool {
    0 <= w.withdrawable && match w.balance {
        Some(b) => w.withdrawable <= b,
        None => w.withdrawable == 0,
    }
}

/// Setting funds aside uses funds that cannot be withdrawn first, takes no more
/// withdrawable funds than there are, and leaves what the wallet owns as it was. No more
/// may be withdrawn afterwards than is available.
pub proof fn law_setting_aside_is_covered(
    w: Wallet,
    amount: int,
    insufficient: Seq<char>,
    next: Wallet,
    part: int,
)
    requires
        w.balance is Some,
        0 <= amount <= i64::MAX,
        set_aside(w, amount, insufficient) == Ok::<(Wallet, int), Seq<char>>((next, part)),
    ensures
        0 <= part <= w.withdrawable,
        part <= amount,
        part > 0 ==> amount - part == w.balance->0 - w.withdrawable,
        is_covered(next),
        assets(next) == assets(w),
        next.earned == w.earned,
        next.spent == w.spent,
        next.debt == w.debt,
{
}

/// Giving everything back that was set aside restores the wallet.
pub proof fn law_giving_back_undoes_setting_aside(
    w: Wallet,
    amount: int,
    insufficient: Seq<char>,
    next: Wallet,
    part: int,
)
    requires
        w.balance is Some,
        0 <= amount <= i64::MAX,
        set_aside(w, amount, insufficient) == Ok::<(Wallet, int), Seq<char>>((next, part)),
    ensures
        given_back(next, amount, part, amount) == Ok::<Wallet, Seq<char>>(w),
{
}

} // verus!
