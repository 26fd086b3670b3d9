//! What transfers, payments and locked tokens do to balances.
use vstd::prelude::*;

use crate::creature::identity::email_key;
use crate::creature::locks::{
    chosen_step, due_step, listed_refusal, lock_consumed, locked_total, stored_refusal,
    token_locked, ConsumeLockInput, ConsumedState, LockStepInput, LockTokenInput,
};
use crate::creature::transfers::{
    minted, transferred, MintAnswer, MintInput, TransferAnswer, TransferInput,
};
use crate::finance::journal::figures;
use crate::finance::ledger::{link_of, wallet_of, Books, Wallet};
use crate::finance::payout_laws::{lemma_posted, posts};
use crate::json::Tree;
use crate::table::{law_lookup_after_drop, law_lookup_after_store, lookup, Rows};
use crate::text::trimmed;

verus! {

broadcast use law_lookup_after_store;

// ---------------------------------------------------------------- transfers

/// A transfer is made exactly where it moves something that the sender has to another wallet, and
/// both wallets read well and can take it.
pub proof fn law_a_covered_transfer_is_made(
    books: Books,
    usernames: Rows<Seq<char>>,
    from: Seq<char>,
    to: Seq<char>,
    input: TransferInput,
    now: i64,
    journal_id: Seq<char>,
)
    requires
        lookup(usernames, input.to_username@) == Some(to),
        ({
            let w = wallet_of(books.wallets, to);
            &&& 0 <= w.debt
            &&& w.balance matches Some(balance) ==> balance + input.amount <= i64::MAX
            &&& 0 <= w.withdrawable && w.withdrawable + input.amount <= i64::MAX
        }),
        ({
            let w = wallet_of(books.wallets, from);
            &&& 0 <= w.withdrawable
            &&& w.balance matches Some(balance) ==> w.withdrawable <= balance
        }),
    ensures
        (transferred(books, usernames, from, input, now, journal_id) is Ok) == {
            &&& input.amount > 0
            &&& wallet_of(books.wallets, from).balance matches Some(balance) && input.amount
                <= balance
            &&& to.len() > 0
            &&& to != from
            &&& wallet_of(books.wallets, to).balance is Some
        },
{
}

/// Nobody is found under a user name that is not taken.
pub proof fn law_no_transfer_to_nobody(
    books: Books,
    usernames: Rows<Seq<char>>,
    from: Seq<char>,
    input: TransferInput,
    now: i64,
    journal_id: Seq<char>,
)
    requires
        lookup(usernames, input.to_username@) is None,
    ensures
        transferred(books, usernames, from, input, now, journal_id) is Err,
{
}

proof fn lemma_money_words()
    ensures
        "entries"@.len() == 7,
        "amount"@.len() == 6,
        "withdrawableAmount"@.len() == 18,
        "debtRepaid"@.len() == 10,
        "grossAmount"@.len() == 11,
        "walletCredit"@.len() == 12,
        "paymentReference"@.len() == 16,
{
    reveal_strlit("entries");
    reveal_strlit("amount");
    reveal_strlit("withdrawableAmount");
    reveal_strlit("debtRepaid");
    reveal_strlit("grossAmount");
    reveal_strlit("walletCredit");
    reveal_strlit("paymentReference");
}

/// A transfer takes its amount from the sender, free funds before withdrawable ones. The receiver's
/// debt is paid off first, out of what cannot be withdrawn before what can; the rest is added to
/// their balance. Nobody else is touched.
#[verifier::rlimit(30)]
pub proof fn law_a_transfer_moves_its_amount(
    books: Books,
    usernames: Rows<Seq<char>>,
    from: Seq<char>,
    input: TransferInput,
    now: i64,
    journal_id: Seq<char>,
    after: Books,
    answer: TransferAnswer,
)
    requires
        transferred(books, usernames, from, input, now, journal_id) == Ok::<
            (Books, TransferAnswer),
            Seq<char>,
        >((after, answer)),
    ensures
        lookup(usernames, input.to_username@) matches Some(to) && {
            let amount = input.amount as int;
            let a = wallet_of(books.wallets, from);
            let b = wallet_of(after.wallets, from);
            let c = wallet_of(books.wallets, to);
            let d = wallet_of(after.wallets, to);
            let free = a.balance->0 - a.withdrawable;
            let part = if amount <= free {
                0
            } else {
                amount - free
            };
            let repaid = if c.debt <= amount {
                c.debt as int
            } else {
                amount
            };
            let gained = if repaid <= amount - part {
                part
            } else {
                amount - repaid
            };
            &&& to != from
            &&& 0 < amount <= a.balance->0
            &&& b == (Wallet {
                balance: Some((a.balance->0 - amount) as i64),
                withdrawable: (a.withdrawable - part) as i64,
                ..a
            })
            &&& d == (Wallet {
                balance: Some((c.balance->0 + amount - repaid) as i64),
                debt: (c.debt - repaid) as i64,
                withdrawable: (c.withdrawable + gained) as i64,
                ..c
            })
            &&& forall|user: Seq<char>|
                user != from && user != to ==> #[trigger] wallet_of(after.wallets, user)
                    == wallet_of(books.wallets, user)
            &&& answer.amount == amount
            &&& answer.to_user_id == to
            &&& answer.debt_repaid == repaid
            &&& answer.journal_id == journal_id
            &&& lookup(after.journal, journal_id) matches Some(entry) && {
                &&& entry.kind == "wallet.transfer"@
                &&& entry.payer_user_id == from
                &&& entry.created_at == now
                &&& posts(entry.payload, 0, "wallet:"@ + from + ":available"@, -amount)
                &&& posts(entry.payload, 1, "wallet:"@ + to + ":available"@, amount - repaid)
                &&& posts(entry.payload, 2, "wallet:"@ + to + ":debt"@, -repaid)
                &&& entry.payload.whole("amount"@) == Some(input.amount)
                &&& entry.payload.whole("withdrawableAmount"@) == Some(part as i64)
                &&& entry.payload.whole("debtRepaid"@) == Some(repaid as i64)
            }
        },
        after == (Books {
            wallets: after.wallets,
            links: after.links,
            journal: after.journal,
            ..books
        }),
{
    lemma_money_words();
    let to = link_of(usernames, input.to_username@);
    let amount = input.amount as int;
    let a = wallet_of(books.wallets, from);
    let c = wallet_of(books.wallets, to);
    let free = a.balance->0 - a.withdrawable;
    let part = if amount <= free {
        0
    } else {
        amount - free
    };
    let repaid = if c.debt <= amount {
        c.debt as int
    } else {
        amount
    };
    let amounts = seq![
        ("wallet:"@ + from + ":available"@, -amount),
        ("wallet:"@ + to + ":available"@, amount - repaid),
        ("wallet:"@ + to + ":debt"@, -repaid),
    ];
    lemma_posted(amounts, 0);
    lemma_posted(amounts, 1);
    lemma_posted(amounts, 2);
    reveal_with_fuel(figures, 5);
    let three = seq![("amount"@, amount), ("withdrawableAmount"@, part), ("debtRepaid"@, repaid)];
    assert(three.drop_last() =~= seq![("amount"@, amount), ("withdrawableAmount"@, part)]);
    assert(three.drop_last().drop_last() =~= seq![("amount"@, amount)]);
    assert(three.drop_last().drop_last().drop_last() =~= Seq::empty());
}

// ---------------------------------------------------------------- payments

/// A payment that was not credited before is credited exactly by the platform's owner, where it is
/// of something, to one whom an address names and whose wallet can take it.
pub proof fn law_the_platform_credits_payments(
    books: Books,
    identities: Rows<Seq<char>>,
    caller: Seq<char>,
    input: MintInput,
    now: i64,
    journal_id: Seq<char>,
    target: Seq<char>,
)
    requires
        lookup(books.links, "MintApplied::"@ + trimmed(input.idempotency_key@)) is None,
        lookup(identities, email_key(input.to_user_email@)) == Some(target),
        0 <= wallet_of(books.wallets, target).debt,
        wallet_of(books.wallets, target).balance matches Some(balance) ==> balance + input.amount
            <= i64::MAX,
    ensures
        (minted(books, identities, caller, input, now, journal_id) is Ok) == {
            &&& caller == "1@global"@
            &&& input.amount > 0
            &&& target.len() > 0
            &&& wallet_of(books.wallets, target).balance is Some
        },
        minted(books, identities, caller, input, now, journal_id) matches Ok((_, answer)) ==> answer
            is Applied,
{
}

/// A payment pays off the debt of the one it is credited to, and the rest is added to their
/// balance, where it cannot be withdrawn. Nobody else is touched.
#[verifier::rlimit(30)]
pub proof fn law_a_payment_pays_debt_first(
    books: Books,
    identities: Rows<Seq<char>>,
    caller: Seq<char>,
    input: MintInput,
    now: i64,
    journal_id: Seq<char>,
    after: Books,
    answer: MintAnswer,
)
    requires
        minted(books, identities, caller, input, now, journal_id) == Ok::<
            (Books, MintAnswer),
            Seq<char>,
        >((after, answer)),
        answer is Applied,
    ensures
        lookup(identities, email_key(input.to_user_email@)) matches Some(target) && {
            let amount = input.amount as int;
            let was = wallet_of(books.wallets, target);
            let repaid = if was.debt <= amount {
                was.debt as int
            } else {
                amount
            };
            let credit = amount - repaid;
            &&& caller == "1@global"@
            &&& amount > 0
            &&& wallet_of(after.wallets, target) == (Wallet {
                balance: Some((was.balance->0 + credit) as i64),
                debt: (was.debt - repaid) as i64,
                ..was
            })
            &&& forall|user: Seq<char>|
                user != target ==> #[trigger] wallet_of(after.wallets, user) == wallet_of(
                    books.wallets,
                    user,
                )
            &&& answer == (MintAnswer::Applied {
                balance: was.balance->0 + credit,
                wallet_credit: credit,
                debt_repaid: repaid,
                debt: was.debt - repaid,
                journal_id,
            })
            &&& lookup(after.journal, journal_id) matches Some(entry) && {
                &&& entry.kind == "payment.credited"@
                &&& entry.payer_user_id == target
                &&& entry.created_at == now
                &&& posts(entry.payload, 0, "external:payments"@, -amount)
                &&& posts(entry.payload, 1, "wallet:"@ + target + ":available"@, credit)
                &&& posts(entry.payload, 2, "wallet:"@ + target + ":debt"@, -repaid)
                &&& entry.payload.whole("grossAmount"@) == Some(input.amount)
                &&& entry.payload.whole("walletCredit"@) == Some(credit as i64)
                &&& entry.payload.whole("debtRepaid"@) == Some(repaid as i64)
                &&& entry.payload.text("paymentReference"@) == Some(input.idempotency_key@)
            }
        },
        after == (Books {
            wallets: after.wallets,
            links: after.links,
            journal: after.journal,
            ..books
        }),
{
    lemma_money_words();
    let target = link_of(identities, email_key(input.to_user_email@));
    let amount = input.amount as int;
    let was = wallet_of(books.wallets, target);
    let repaid = if was.debt <= amount {
        was.debt as int
    } else {
        amount
    };
    let credit = amount - repaid;
    let amounts = seq![
        ("external:payments"@, -amount),
        ("wallet:"@ + target + ":available"@, credit),
        ("wallet:"@ + target + ":debt"@, -repaid),
    ];
    lemma_posted(amounts, 0);
    lemma_posted(amounts, 1);
    lemma_posted(amounts, 2);
    reveal_with_fuel(figures, 5);
    let three = seq![("grossAmount"@, amount), ("walletCredit"@, credit), ("debtRepaid"@, repaid)];
    assert(three.drop_last() =~= seq![("grossAmount"@, amount), ("walletCredit"@, credit)]);
    assert(three.drop_last().drop_last() =~= seq![("grossAmount"@, amount)]);
    assert(three.drop_last().drop_last().drop_last() =~= Seq::empty());
}

// ---------------------------------------------------------------- locking

/// What steps lock together.
pub open spec fn step_sum(steps: Seq<LockStepInput>) -> int
    decreases steps.len(),
{
    if steps.len() == 0 {
        0
    } else {
        step_sum(steps.drop_last()) + steps.last().amount
    }
}

/// The steps that a request locks: those that it lists, or else the one that it names.
pub open spec fn asked_steps(input: LockTokenInput) -> Seq<LockStepInput> {
    if input.steps@.len() > 0 {
        input.steps@
    } else {
        seq![LockStepInput { amount: input.amount, unlock_at: input.unlock_at }]
    }
}

proof fn lemma_steps_taken(steps: Seq<LockStepInput>)
    ensures
        (listed_refusal(steps) is None) == forall|i: int|
            0 <= i < steps.len() ==> (#[trigger] steps[i]).amount > 0 && steps[i].unlock_at > 0,
        locked_total(steps) == step_sum(steps),
    decreases steps.len(),
{
    if steps.len() > 0 {
        let front = steps.drop_last();
        lemma_steps_taken(front);
        if listed_refusal(steps) is None {
            assert forall|i: int| 0 <= i < steps.len() implies (#[trigger] steps[i]).amount > 0
                && steps[i].unlock_at > 0 by {
                if i < front.len() {
                    assert(front[i] == steps[i]);
                }
            }
        }
        if forall|i: int|
            0 <= i < steps.len() ==> (#[trigger] steps[i]).amount > 0 && steps[i].unlock_at > 0 {
            assert forall|i: int| 0 <= i < front.len() implies (#[trigger] front[i]).amount > 0
                && front[i].unlock_at > 0 by {
                assert(front[i] == steps[i]);
            }
            assert(steps[steps.len() - 1].amount > 0);
        }
    }
}

/// Tokens are locked exactly for a payment in steps that each are of something and come due, to one
/// who exists, where the payer has as much as they add up to.
pub proof fn law_covered_steps_are_locked(
    books: Books,
    payer: Seq<char>,
    input: LockTokenInput,
    lock_id: Seq<char>,
)
    ensures
        ({
            let steps = asked_steps(input);
            (token_locked(books, payer, input, lock_id) is Ok) == {
                &&& forall|i: int|
                    0 <= i < steps.len() ==> (#[trigger] steps[i]).amount > 0 && steps[i].unlock_at
                        > 0
                &&& step_sum(steps) <= i64::MAX
                &&& wallet_of(books.wallets, payer).balance matches Some(balance) && step_sum(steps)
                    <= balance
                &&& input.typ@ == "pay"@
                &&& wallet_of(books.wallets, input.target@).balance is Some
            }
        }),
{
    let steps = asked_steps(input);
    lemma_steps_taken(steps);
    if input.steps@.len() == 0 {
        let one = LockStepInput { amount: input.amount, unlock_at: input.unlock_at };
        assert(steps == seq![one]);
        assert(steps[0] == one);
        assert(steps.drop_last() =~= Seq::empty());
        assert(listed_refusal(steps.drop_last()) is None);
    } else {
        assert(steps[0] == input.steps@[0]);
    }
    if forall|i: int|
        0 <= i < steps.len() ==> (#[trigger] steps[i]).amount > 0 && steps[i].unlock_at > 0 {
        lemma_steps_add_up(steps);
    }
}

proof fn lemma_steps_add_up(steps: Seq<LockStepInput>)
    requires
        forall|i: int|
            0 <= i < steps.len() ==> (#[trigger] steps[i]).amount > 0 && steps[i].unlock_at > 0,
    ensures
        step_sum(steps) >= steps.len(),
    decreases steps.len(),
{
    if steps.len() > 0 {
        let front = steps.drop_last();
        assert forall|i: int| 0 <= i < front.len() implies (#[trigger] front[i]).amount > 0
            && front[i].unlock_at > 0 by {
            assert(front[i] == steps[i]);
        }
        assert(steps[steps.len() - 1].amount > 0);
        lemma_steps_add_up(front);
    }
}

proof fn lemma_lock_words()
    ensures
        "type"@.len() == 4,
        "amount"@.len() == 6,
        "userId"@.len() == 6,
        "amount"@ != "userId"@,
        "remainingAmount"@.len() == 15,
        "steps"@.len() == 5,
        "unlockAt"@.len() == 8,
        "consumed"@.len() == 8,
        "unlockAt"@ != "consumed"@,
        "consumedAt"@.len() == 10,
        "consumedAmount"@.len() == 14,
{
    reveal_strlit("type");
    reveal_strlit("amount");
    reveal_strlit("userId");
    reveal_strlit("remainingAmount");
    reveal_strlit("steps");
    reveal_strlit("unlockAt");
    reveal_strlit("consumed");
    reveal_strlit("consumedAt");
    reveal_strlit("consumedAmount");
    assert("amount"@[0] == 'a' && "userId"@[0] == 'u');
    assert("unlockAt"@[0] == 'u' && "consumed"@[0] == 'c');
}

/// Locked tokens leave the payer's balance and stand in a lock in favour of the target, step by
/// step as asked, none of them taken. Nothing else changes.
pub proof fn law_locked_tokens_stand_in_the_lock(
    books: Books,
    payer: Seq<char>,
    input: LockTokenInput,
    lock_id: Seq<char>,
    after: Books,
    i: int,
)
    requires
        token_locked(books, payer, input, lock_id) == Ok::<Books, Seq<char>>(after),
    ensures
        ({
            let steps = asked_steps(input);
            let was = wallet_of(books.wallets, payer);
            let key = "Json::Creature::"@ + payer + "::lockedTokens."@ + lock_id;
            &&& wallet_of(after.wallets, payer) == (Wallet {
                balance: Some((was.balance->0 - step_sum(steps)) as i64),
                ..was
            })
            &&& forall|user: Seq<char>|
                user != payer ==> #[trigger] wallet_of(after.wallets, user) == wallet_of(
                    books.wallets,
                    user,
                )
            &&& lookup(after.locks, key) matches Some(lock) && {
                &&& lock.text("type"@) == Some("pay"@)
                &&& lock.text("userId"@) == Some(input.target@)
                &&& lock.whole("amount"@) == Some(step_sum(steps) as i64)
                &&& lock.whole("remainingAmount"@) == Some(step_sum(steps) as i64)
                &&& lock.items("steps"@) matches Some(list) && list.len() == steps.len() && (0 <= i
                    < list.len() ==> {
                    &&& list[i].whole("amount"@) == Some(steps[i].amount)
                    &&& list[i].whole("unlockAt"@) == Some(steps[i].unlock_at)
                    &&& list[i].field("consumed"@) == Some(Tree::Bool(false))
                })
            }
            &&& forall|other: Seq<char>|
                other != key ==> #[trigger] lookup(after.locks, other) == lookup(books.locks, other)
            &&& after == (Books { wallets: after.wallets, locks: after.locks, ..books })
        }),
{
    lemma_lock_words();
    let steps = asked_steps(input);
    lemma_steps_taken(steps);
    let key = "Json::Creature::"@ + payer + "::lockedTokens."@ + lock_id;
    let lock = lookup(after.locks, key)->0;
    let list = lock.items("steps"@)->0;
    assert(list == crate::creature::locks::step_records(steps));
    if 0 <= i < list.len() {
        assert(list[i] == crate::creature::locks::step_record(steps[i]));
    }
}

// ---------------------------------------------------------------- taking a step

/// Whether a step of a lock can be read.
pub open spec fn is_step(step: Tree) -> bool {
    &&& step is Object
    &&& step.number("amount"@) matches Some(amount) && amount > 0
    &&& step.number("unlockAt"@) matches Some(at) && at > 0
}

/// Whether a step can be taken for an amount at a time.
pub open spec fn can_be_taken(step: Tree, amount: int, now: int) -> bool {
    &&& !step.flag("consumed"@)
    &&& step.number("unlockAt"@)->0 <= now
    &&& step.number("amount"@)->0 == amount
}

proof fn lemma_readable(steps: Seq<Tree>)
    ensures
        (stored_refusal(steps) is None) == forall|i: int|
            0 <= i < steps.len() ==> is_step(#[trigger] steps[i]),
    decreases steps.len(),
{
    if steps.len() > 0 {
        let front = steps.drop_last();
        lemma_readable(front);
        if stored_refusal(steps) is None {
            assert forall|i: int| 0 <= i < steps.len() implies is_step(#[trigger] steps[i]) by {
                if i < front.len() {
                    assert(front[i] == steps[i]);
                }
            }
        }
        if forall|i: int| 0 <= i < steps.len() ==> is_step(#[trigger] steps[i]) {
            assert forall|i: int| 0 <= i < front.len() implies is_step(#[trigger] front[i]) by {
                assert(front[i] == steps[i]);
            }
            assert(is_step(steps[steps.len() - 1]));
        }
    }
}

proof fn lemma_first_due(steps: Seq<Tree>, amount: int, now: int)
    requires
        forall|i: int| 0 <= i < steps.len() ==> is_step(#[trigger] steps[i]),
    ensures
        match due_step(steps, amount, now) {
            Some(i) => 0 <= i < steps.len() && can_be_taken(steps[i], amount, now) && forall|j: int|
                0 <= j < i ==> !can_be_taken(#[trigger] steps[j], amount, now),
            None => forall|j: int|
                0 <= j < steps.len() ==> !can_be_taken(#[trigger] steps[j], amount, now),
        },
    decreases steps.len(),
{
    if steps.len() > 0 {
        let front = steps.drop_last();
        assert forall|i: int| 0 <= i < front.len() implies is_step(#[trigger] front[i]) by {
            assert(front[i] == steps[i]);
        }
        assert(is_step(steps[steps.len() - 1]));
        lemma_first_due(front, amount, now);
        match due_step(front, amount, now) {
            Some(i) => {
                assert forall|j: int| 0 <= j < i implies !can_be_taken(
                    #[trigger] steps[j],
                    amount,
                    now,
                ) by {
                    assert(front[j] == steps[j]);
                }
            },
            None => {
                assert forall|j: int| 0 <= j < steps.len() - 1 implies !can_be_taken(
                    #[trigger] steps[j],
                    amount,
                    now,
                ) by {
                    assert(front[j] == steps[j]);
                }
            },
        }
    }
}

/// A request takes a step of a lock whose steps can all be read exactly where it names one that can
/// be taken for the amount, or names none and there is such a step: then the first of them.
pub proof fn law_a_step_that_is_due_is_taken(
    payment: Tree,
    step: Option<i64>,
    amount: int,
    now: int,
    index: int,
)
    requires
        step != Some(-1i64),
    ensures
        (chosen_step(Some(payment), step, amount, now) == Ok::<int, Seq<char>>(index)) == (
        payment.items("steps"@) matches Some(steps) && {
            &&& forall|i: int| 0 <= i < steps.len() ==> is_step(#[trigger] steps[i])
            &&& 0 <= index < steps.len()
            &&& can_be_taken(steps[index], amount, now)
            &&& match step {
                Some(n) => index == n,
                None => forall|j: int|
                    0 <= j < index ==> !can_be_taken(#[trigger] steps[j], amount, now),
            }
        }),
{
    if let Some(steps) = payment.items("steps"@) {
        lemma_readable(steps);
        if forall|i: int| 0 <= i < steps.len() ==> is_step(#[trigger] steps[i]) {
            lemma_first_due(steps, amount, now);
            if 0 <= index < steps.len() {
                assert(is_step(steps[index]));
            }
            if let Some(n) = step {
                if 0 <= n < steps.len() {
                    assert(is_step(steps[n as int]));
                }
            }
        }
    }
}

/// A step named as minus one is a step not named.
pub proof fn law_minus_one_names_no_step(payment: Option<Tree>, amount: int, now: int)
    ensures
        chosen_step(payment, Some(-1i64), amount, now) == chosen_step(payment, None, amount, now),
{
}

/// What the steps that were not taken are worth together.
pub open spec fn untaken(steps: Seq<Tree>) -> int
    decreases steps.len(),
{
    if steps.len() == 0 {
        0
    } else {
        untaken(steps.drop_last()) + if steps.last().flag("consumed"@) {
            0
        } else {
            match steps.last().number("amount"@) {
                Some(n) => n as int,
                None => 0,
            }
        }
    }
}

proof fn lemma_untaken(steps: Seq<Tree>)
    ensures
        crate::creature::locks::left_in(steps) == untaken(steps),
    decreases steps.len(),
{
    if steps.len() > 0 {
        lemma_untaken(steps.drop_last());
    }
}

proof fn lemma_untaken_after(steps: Seq<Tree>, index: int, next: Tree)
    requires
        0 <= index < steps.len(),
        !steps[index].flag("consumed"@),
        next.flag("consumed"@),
    ensures
        untaken(steps.update(index, next)) == untaken(steps) - match steps[index].number(
            "amount"@,
        ) {
            Some(n) => n as int,
            None => 0,
        },
    decreases steps.len(),
{
    let after = steps.update(index, next);
    let front = steps.drop_last();
    if index == steps.len() - 1 {
        assert(after.drop_last() =~= front);
    } else {
        assert(after.drop_last() =~= front.update(index, next));
        lemma_untaken_after(front, index, next);
    }
}

/// Taking a step adds its amount to the receiver's balance, in whose favour the lock stands and for
/// whom the payer signed. The step is marked as taken at that time, every other step stays, and
/// what is left is less by the amount; a lock of which nothing is left is gone.
#[verifier::rlimit(30)]
pub proof fn law_a_taken_step_pays_the_receiver(
    books: Books,
    receiver: Seq<char>,
    input: ConsumeLockInput,
    now: i64,
    verified: bool,
    after: Books,
    answer: ConsumedState,
    payment: Tree,
    i: int,
)
    requires
        lock_consumed(books, receiver, input, now, verified) == Ok::<
            (Books, ConsumedState),
            Seq<char>,
        >((after, answer)),
        lookup(
            books.locks,
            "Json::Creature::"@ + input.user_id@ + "::lockedTokens."@ + input.lock_id@,
        ) == Some(payment),
        input.step != Some(-1i64),
    ensures
        ({
            let key = "Json::Creature::"@ + input.user_id@ + "::lockedTokens."@ + input.lock_id@;
            let was = wallet_of(books.wallets, receiver);
            let steps = payment.items("steps"@)->0;
            &&& verified
            &&& input.typ@ == "pay"@
            &&& payment.text("type"@) == Some("pay"@)
            &&& payment.text_or_empty("userId"@) == receiver
            &&& 0 <= answer.step < steps.len()
            &&& can_be_taken(steps[answer.step], input.amount as int, now as int)
            &&& input.step matches Some(n) ==> answer.step == n
            &&& wallet_of(after.wallets, receiver) == (Wallet {
                balance: Some((was.balance->0 + input.amount) as i64),
                ..was
            })
            &&& forall|user: Seq<char>|
                user != receiver ==> #[trigger] wallet_of(after.wallets, user) == wallet_of(
                    books.wallets,
                    user,
                )
            &&& answer.remaining == untaken(steps) - input.amount
            &&& answer.remaining == 0 ==> lookup(after.locks, key) is None
            &&& answer.remaining != 0 ==> (lookup(after.locks, key) matches Some(lock) && {
                &&& lock.whole("remainingAmount"@) == Some(answer.remaining as i64)
                &&& payment.number("amount"@) matches Some(total) ==> lock.whole("consumedAmount"@)
                    == Some((total - answer.remaining) as i64)
                &&& lock.field("amount"@) == payment.field("amount"@)
                &&& lock.field("type"@) == payment.field("type"@)
                &&& lock.field("userId"@) == payment.field("userId"@)
                &&& lock.items("steps"@) matches Some(list) && {
                    &&& list.len() == steps.len()
                    &&& 0 <= i < list.len() && i != answer.step ==> list[i] == steps[i]
                    &&& list[answer.step].flag("consumed"@)
                    &&& list[answer.step].whole("consumedAt"@) == Some(now)
                    &&& list[answer.step].field("amount"@) == steps[answer.step].field("amount"@)
                    &&& list[answer.step].field("unlockAt"@) == steps[answer.step].field(
                        "unlockAt"@,
                    )
                }
            })
            &&& forall|other: Seq<char>|
                other != key ==> #[trigger] lookup(after.locks, other) == lookup(books.locks, other)
            &&& after == (Books { wallets: after.wallets, locks: after.locks, ..books })
        }),
{
    lemma_lock_words();
    reveal_strlit("pay");
    assert("pay"@.len() == 3);
    let key = "Json::Creature::"@ + input.user_id@ + "::lockedTokens."@ + input.lock_id@;
    let steps = payment.items("steps"@)->0;
    law_a_step_that_is_due_is_taken(
        payment,
        input.step,
        input.amount as int,
        now as int,
        answer.step,
    );
    let next = crate::creature::locks::taken(steps[answer.step], now);
    let left = steps.update(answer.step, next);
    assert(is_step(steps[answer.step]));
    lemma_untaken_after(steps, answer.step, next);
    lemma_untaken(left);
    law_lookup_after_drop(books.locks, key, key);
    assert forall|other: Seq<char>| other != key implies #[trigger] lookup(after.locks, other)
        == lookup(books.locks, other) by {
        law_lookup_after_drop(books.locks, key, other);
    }
}

/// A step that is due is paid out to the one in whose favour the lock stands, where the payer
/// signed for it and the sums fit.
pub proof fn law_a_signed_step_is_paid_out(
    books: Books,
    receiver: Seq<char>,
    input: ConsumeLockInput,
    now: i64,
    payment: Tree,
    index: int,
)
    requires
        input.typ@ == "pay"@,
        wallet_of(books.wallets, input.user_id@).balance is Some,
        lookup(
            books.locks,
            "Json::Creature::"@ + input.user_id@ + "::lockedTokens."@ + input.lock_id@,
        ) == Some(payment),
        input.step == Some(index as i64),
        0 <= index <= i64::MAX,
        payment.items("steps"@) matches Some(steps) && index < steps.len() && (forall|i: int|
            0 <= i < steps.len() ==> is_step(#[trigger] steps[i])) && can_be_taken(
            steps[index],
            input.amount as int,
            now as int,
        ) && untaken(steps) <= i64::MAX,
        payment.text("type"@) == Some("pay"@),
        payment.text("userId"@) == Some(receiver),
        payment.number("amount"@) matches Some(total) && total > 0,
        wallet_of(books.wallets, receiver).balance matches Some(balance) && balance + input.amount
            <= i64::MAX,
    ensures
        lock_consumed(books, receiver, input, now, true) matches Ok((_, answer)) && answer.step
            == index,
        lock_consumed(books, receiver, input, now, false) is Err,
{
    lemma_lock_words();
    let steps = payment.items("steps"@)->0;
    law_a_step_that_is_due_is_taken(payment, input.step, input.amount as int, now as int, index);
    let next = crate::creature::locks::taken(steps[index], now);
    assert(is_step(steps[index]));
    lemma_untaken_after(steps, index, next);
    lemma_untaken(steps.update(index, next));
}

} // verus!
