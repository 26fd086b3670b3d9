//! Locked tokens: a payer locks an amount in steps, and the payee takes each step once it
//! is due and signed for.
use vstd::prelude::*;

use crate::decimal::{decimal, digits, write_i64, write_u64};
use crate::finance::ledger::{wallet_in, wallet_of, Books, Ledger, Wallet};
use crate::json::{items_of, lemma_array, no_fields, object, Json, Tree};
use crate::table::{dropped, law_lookup_after_store, lookup, stored, Rows};
use crate::text::{join3, join4, same};

verus! {

broadcast use {vstd::string::group_string_axioms, law_lookup_after_store};

// ---------------------------------------------------------------- locking

/// One step of a lock: an amount and the time from which it may be taken.
pub struct LockStepInput {
    pub amount: i64,
    pub unlock_at: i64,
}

/// A request to lock tokens.
pub struct LockTokenInput {
    pub typ: String,
    pub target: String,
    pub amount: i64,
    pub unlock_at: i64,
    pub steps: Vec<LockStepInput>,
}

/// The key of a payer's lock.
pub open spec fn lock_key(payer: Seq<char>, lock: Seq<char>) -> Seq<char> {
    "Json::Creature::"@ + payer + "::lockedTokens."@ + lock
}

/// The key of a payer's lock.
pub fn lock_key_of(payer: &str, lock: &str) -> (r: String)
    ensures
        r@ == lock_key(payer@, lock@),
{
    join4("Json::Creature::", payer, "::lockedTokens.", lock)
}

/// The balance of a user; a missing creature has none.
pub open spec fn balance_of(wallets: Rows<Wallet>, user: Seq<char>) -> int {
    match wallet_of(wallets, user).balance {
        Some(balance) => balance as int,
        None => 0,
    }
}

/// The record of a step that was not taken yet.
pub open spec fn step_record(step: LockStepInput) -> Tree {
    no_fields().with("amount"@, Tree::Whole(step.amount)).with(
        "unlockAt"@,
        Tree::Whole(step.unlock_at),
    ).with("consumed"@, Tree::Bool(false))
}

/// Why one of the listed steps cannot be locked: the first that has no amount or no time.
pub open spec fn listed_refusal(steps: Seq<LockStepInput>) -> Option<Seq<char>>
    decreases steps.len(),
{
    if steps.len() == 0 {
        None
    } else {
        match listed_refusal(steps.drop_last()) {
            Some(e) => Some(e),
            None => {
                let at = digits((steps.len() - 1) as nat);
                if steps.last().amount <= 0 {
                    Some("step "@ + at + " amount must be greater than zero"@)
                } else if steps.last().unlock_at <= 0 {
                    Some("step "@ + at + " unlockAt must be a unix timestamp in milliseconds"@)
                } else {
                    None
                }
            },
        }
    }
}

/// The steps that a request locks: those it lists, or the single one it names.
pub open spec fn steps_to_lock(input: LockTokenInput) -> Result<Seq<LockStepInput>, Seq<char>> {
    if input.steps@.len() > 0 {
        match listed_refusal(input.steps@) {
            Some(e) => Err(e),
            None => Ok(input.steps@),
        }
    } else if input.amount <= 0 {
        Err("amount must be greater than zero"@)
    } else if input.unlock_at <= 0 {
        Err("unlockAt must be a unix timestamp in milliseconds"@)
    } else {
        Ok(seq![LockStepInput { amount: input.amount, unlock_at: input.unlock_at }])
    }
}

/// What the steps lock together.
pub open spec fn locked_total(steps: Seq<LockStepInput>) -> int
    decreases steps.len(),
{
    if steps.len() == 0 {
        0
    } else {
        locked_total(steps.drop_last()) + steps.last().amount
    }
}

/// The records of the steps.
pub open spec fn step_records(steps: Seq<LockStepInput>) -> Seq<Tree> {
    steps.map_values(|s: LockStepInput| step_record(s))
}

/// The record of a new lock.
pub open spec fn lock_record(target: Seq<char>, steps: Seq<LockStepInput>) -> Tree {
    let total = locked_total(steps) as i64;
    no_fields().with("type"@, Tree::Text("pay"@)).with("amount"@, Tree::Whole(total)).with(
        "remainingAmount"@,
        Tree::Whole(total),
    ).with("userId"@, Tree::Text(target)).with("steps"@, Tree::Array(step_records(steps)))
}

/// The books after a payer locked tokens under the identifier `lock_id`.
pub open spec fn token_locked(
    books: Books,
    payer: Seq<char>,
    input: LockTokenInput,
    lock_id: Seq<char>,
) -> Result<Books, Seq<char>> {
    match steps_to_lock(input) {
        Err(e) => Err(e),
        Ok(steps) => {
            let total = locked_total(steps);
            let w = wallet_of(books.wallets, payer);
            if total > i64::MAX {
                Err("lock amount overflow"@)
            } else if balance_of(books.wallets, payer) < total {
                Err("your balance is not enough"@)
            } else if input.typ@ != "pay"@ {
                Err("unknown lock type"@)
            } else if wallet_of(books.wallets, input.target@).balance is None {
                Err("target user not acceptable"@)
            } else {
                Ok(
                    Books {
                        wallets: stored(
                            books.wallets,
                            payer,
                            Wallet { balance: Some((w.balance->0 - total) as i64), ..w },
                        ),
                        locks: stored(
                            books.locks,
                            lock_key(payer, lock_id),
                            lock_record(input.target@, steps),
                        ),
                        ..books
                    },
                )
            }
        },
    }
}

proof fn lemma_listed_refused_later(steps: Seq<LockStepInput>, n: int)
    requires
        0 <= n <= steps.len(),
        listed_refusal(steps.subrange(0, n)) is Some,
    ensures
        listed_refusal(steps) == listed_refusal(steps.subrange(0, n)),
    decreases steps.len() - n,
{
    if n == steps.len() {
        assert(steps.subrange(0, n) =~= steps);
    } else {
        assert(steps.subrange(0, n + 1).drop_last() =~= steps.subrange(0, n));
        lemma_listed_refused_later(steps, n + 1);
    }
}

proof fn lemma_total_grows(steps: Seq<LockStepInput>, n: int)
    requires
        0 <= n <= steps.len(),
        forall|i: int| 0 <= i < steps.len() ==> (#[trigger] steps[i]).amount > 0,
    ensures
        locked_total(steps.subrange(0, n)) <= locked_total(steps),
        0 <= locked_total(steps.subrange(0, n)),
    decreases steps.len(),
{
    if n == steps.len() {
        assert(steps.subrange(0, n) =~= steps);
        if n > 0 {
            assert(steps.drop_last() =~= steps.subrange(0, n - 1));
            lemma_total_grows(steps.drop_last(), n - 1);
            assert(steps.drop_last().subrange(0, n - 1) =~= steps.drop_last());
        }
    } else {
        lemma_total_grows(steps.drop_last(), n);
        assert(steps.drop_last().subrange(0, n) =~= steps.subrange(0, n));
        assert(steps.last().amount > 0);
    }
}

proof fn lemma_not_refused(steps: Seq<LockStepInput>)
    requires
        listed_refusal(steps) is None,
    ensures
        forall|i: int| 0 <= i < steps.len() ==> (#[trigger] steps[i]).amount > 0,
    decreases steps.len(),
{
    if steps.len() > 0 {
        lemma_not_refused(steps.drop_last());
        assert forall|i: int| 0 <= i < steps.len() implies (#[trigger] steps[i]).amount > 0 by {
            if i < steps.len() - 1 {
                assert(steps.drop_last()[i] == steps[i]);
            }
        }
    }
}

fn refuse_steps(steps: &Vec<LockStepInput>) -> (r: Option<String>)
    ensures
        match r {
            Some(e) => listed_refusal(steps@) == Some(e@),
            None => listed_refusal(steps@) is None,
        },
{
    let mut i: usize = 0;
    assert(steps@.subrange(0, 0) =~= Seq::empty());
    while i < steps.len()
        invariant
            i <= steps@.len(),
            listed_refusal(steps@.subrange(0, i as int)) is None,
        decreases steps.len() - i,
    {
        assert(steps@.subrange(0, i + 1).drop_last() =~= steps@.subrange(0, i as int));
        if steps[i].amount <= 0 {
            let at = write_u64(i as u64);
            proof {
                lemma_listed_refused_later(steps@, i + 1);
            }
            return Some(join3("step ", at.as_str(), " amount must be greater than zero"));
        }
        if steps[i].unlock_at <= 0 {
            let at = write_u64(i as u64);
            proof {
                lemma_listed_refused_later(steps@, i + 1);
            }
            return Some(
                join3(
                    "step ",
                    at.as_str(),
                    " unlockAt must be a unix timestamp in milliseconds",
                ),
            );
        }
        i = i + 1;
    }
    assert(steps@.subrange(0, steps@.len() as int) =~= steps@);
    None
}

fn new_step(step: &LockStepInput) -> (r: Json)
    ensures
        r@ == step_record(*step),
{
    object().with("amount", Json::Whole(step.amount)).with(
        "unlockAt",
        Json::Whole(step.unlock_at),
    ).with("consumed", Json::Bool(false))
}

fn sum_steps(steps: &Vec<LockStepInput>) -> (r: Option<i64>)
    requires
        forall|i: int| 0 <= i < steps@.len() ==> (#[trigger] steps@[i]).amount > 0,
    ensures
        match r {
            Some(total) => total == locked_total(steps@),
            None => locked_total(steps@) > i64::MAX,
        },
{
    let mut total: i64 = 0;
    let mut i: usize = 0;
    assert(steps@.subrange(0, 0) =~= Seq::empty());
    while i < steps.len()
        invariant
            i <= steps@.len(),
            total == locked_total(steps@.subrange(0, i as int)),
            forall|i: int| 0 <= i < steps@.len() ==> (#[trigger] steps@[i]).amount > 0,
        decreases steps.len() - i,
    {
        assert(steps@.subrange(0, i + 1).drop_last() =~= steps@.subrange(0, i as int));
        proof {
            lemma_total_grows(steps@, i + 1);
        }
        match total.checked_add(steps[i].amount) {
            Some(next) => {
                total = next;
            },
            None => {
                return None;
            },
        }
        i = i + 1;
    }
    assert(steps@.subrange(0, steps@.len() as int) =~= steps@);
    Some(total)
}

fn records_for(steps: &Vec<LockStepInput>) -> (r: Json)
    ensures
        r@ == Tree::Array(step_records(steps@)),
{
    let mut out: Vec<Json> = Vec::new();
    let mut i: usize = 0;
    while i < steps.len()
        invariant
            i <= steps@.len(),
            items_of(out@) == step_records(steps@).subrange(0, i as int),
        decreases steps.len() - i,
    {
        let ghost before = out@;
        out.push(new_step(&steps[i]));
        assert(items_of(out@) =~= items_of(before).push(step_record(steps@[i as int])));
        assert(step_records(steps@).subrange(0, i + 1) =~= step_records(steps@).subrange(
            0,
            i as int,
        ).push(step_record(steps@[i as int])));
        i = i + 1;
    }
    proof {
        lemma_array(out);
    }
    assert(step_records(steps@).subrange(0, steps@.len() as int) =~= step_records(steps@));
    Json::Array(out)
}

/// Lock tokens of `payer` for a target, in steps that come due one by one.
pub fn lock_token(
    ledger: &mut Ledger,
    payer: &str,
    input: &LockTokenInput,
    lock_id: &str,
) -> (r: Result<(), String>)
    ensures
        match r {
            Ok(_) => token_locked(old(ledger)@, payer@, *input, lock_id@) == Ok::<
                Books,
                Seq<char>,
            >(final(ledger)@),
            Err(e) => final(ledger)@ == old(ledger)@ && token_locked(
                old(ledger)@,
                payer@,
                *input,
                lock_id@,
            ) == Err::<Books, Seq<char>>(e@),
        },
{
    let w = wallet_in(&ledger.wallets, payer);
    let single: Vec<LockStepInput>;
    let steps: &Vec<LockStepInput> = if input.steps.len() > 0 {
        match refuse_steps(&input.steps) {
            Some(e) => {
                return Err(e);
            },
            None => {
                proof {
                    lemma_not_refused(input.steps@);
                }
                &input.steps
            },
        }
    } else {
        if input.amount <= 0 {
            return Err("amount must be greater than zero".to_owned());
        }
        if input.unlock_at <= 0 {
            return Err("unlockAt must be a unix timestamp in milliseconds".to_owned());
        }
        let mut one: Vec<LockStepInput> = Vec::new();
        one.push(LockStepInput { amount: input.amount, unlock_at: input.unlock_at });
        assert(one@ =~= seq![
            LockStepInput { amount: input.amount, unlock_at: input.unlock_at },
        ]);
        single = one;
        &single
    };
    assert(steps_to_lock(*input) == Ok::<Seq<LockStepInput>, Seq<char>>(steps@));
    proof {
        lemma_total_grows(steps@, 0);
        assert(steps@.subrange(0, 0) =~= Seq::empty());
        assert(steps@.len() > 0);
        assert(steps@.last().amount > 0);
        lemma_total_grows(steps@, steps@.len() - 1);
        assert(steps@.drop_last() =~= steps@.subrange(0, steps@.len() - 1));
    }
    let total: i64 = match sum_steps(steps) {
        Some(total) => total,
        None => {
            return Err("lock amount overflow".to_owned());
        },
    };
    let balance: i64 = match w.balance {
        Some(balance) => balance,
        None => 0,
    };
    if balance < total {
        return Err("your balance is not enough".to_owned());
    }
    if !same(input.typ.as_str(), "pay") {
        return Err("unknown lock type".to_owned());
    }
    if wallet_in(&ledger.wallets, input.target.as_str()).balance.is_none() {
        return Err("target user not acceptable".to_owned());
    }
    let next = Wallet { balance: Some(balance - total), ..w };
    let record = object().with("type", Json::Text("pay".to_owned())).with(
        "amount",
        Json::Whole(total),
    ).with("remainingAmount", Json::Whole(total)).with(
        "userId",
        Json::Text(input.target.clone()),
    ).with("steps", records_for(steps));
    ledger.wallets.put(payer, next);
    ledger.locks.put(lock_key_of(payer, lock_id).as_str(), record);
    Ok(())
}

// ---------------------------------------------------------------- consuming

/// A request to take a step of a lock.
pub struct ConsumeLockInput {
    pub typ: String,
    pub user_id: String,
    pub lock_id: String,
    pub amount: i64,
    pub step: Option<i64>,
}

/// The number in a field of a step, or zero.
pub open spec fn figure(step: Tree, key: Seq<char>) -> i64 {
    match step.number(key) {
        Some(n) => n,
        None => 0,
    }
}

/// The number in a field, or zero.
pub fn figure_of(step: &Json, key: &str) -> (r: i64)
    ensures
        r == figure(step@, key@),
{
    match step.number(key) {
        Some(n) => n,
        None => 0,
    }
}

/// Why a stored step cannot be read.
pub open spec fn step_refusal(step: Tree) -> Option<Seq<char>> {
    if !(step is Object) {
        Some("invalid lock step"@)
    } else if figure(step, "amount"@) <= 0 {
        Some("invalid lock step amount"@)
    } else if figure(step, "unlockAt"@) <= 0 {
        Some("invalid lock step unlockAt"@)
    } else {
        None
    }
}

/// Why the stored steps cannot be read: the first that cannot.
pub open spec fn stored_refusal(steps: Seq<Tree>) -> Option<Seq<char>>
    decreases steps.len(),
{
    if steps.len() == 0 {
        None
    } else {
        match stored_refusal(steps.drop_last()) {
            Some(e) => Some(e),
            None => step_refusal(steps.last()),
        }
    }
}

/// Whether a step can be taken now for exactly `amount`.
pub open spec fn is_due(step: Tree, amount: int, now: int) -> bool {
    !step.flag("consumed"@) && now >= figure(step, "unlockAt"@) && figure(step, "amount"@)
        == amount
}

/// The first step that can be taken now for exactly `amount`.
pub open spec fn due_step(steps: Seq<Tree>, amount: int, now: int) -> Option<int>
    decreases steps.len(),
{
    if steps.len() == 0 {
        None
    } else {
        match due_step(steps.drop_last(), amount, now) {
            Some(i) => Some(i),
            None => if is_due(steps.last(), amount, now) {
                Some(steps.len() - 1)
            } else {
                None
            },
        }
    }
}

/// The steps of a lock, where it has any.
pub open spec fn steps_in(payment: Option<Tree>) -> Seq<Tree> {
    match payment {
        Some(lock) => match lock.items("steps"@) {
            Some(steps) => steps,
            None => Seq::empty(),
        },
        None => Seq::empty(),
    }
}

/// The step that a request takes: the one it names, or the first that is due for its
/// amount.
pub open spec fn chosen_step(
    payment: Option<Tree>,
    step: Option<i64>,
    amount: int,
    now: int,
) -> Result<int, Seq<char>> {
    let steps = steps_in(payment);
    let named = match step {
        Some(n) => n as int,
        None => -1,
    };
    let index = if named != -1 {
        named
    } else {
        match due_step(steps, amount, now) {
            Some(i) => i,
            None => -1,
        }
    };
    if payment is None {
        Err("lock not found"@)
    } else if steps.len() == 0 {
        Err("lock does not include steps"@)
    } else if stored_refusal(steps) is Some {
        Err(stored_refusal(steps)->0)
    } else if index < 0 || index >= steps.len() {
        Err("lock step not found"@)
    } else if now < figure(steps[index], "unlockAt"@) {
        Err("lock step is not consumable yet"@)
    } else if steps[index].flag("consumed"@) {
        Err("lock step already consumed"@)
    } else if amount != figure(steps[index], "amount"@) {
        Err("amount of payment not matched"@)
    } else {
        Ok(index)
    }
}

/// The text that the payer signs to release a step.
pub open spec fn signing_text(
    lock: Seq<char>,
    index: int,
    unlock_at: int,
    amount: int,
    receiver: Seq<char>,
) -> Seq<char> {
    lock + ":"@ + digits(index as nat) + ":"@ + decimal(unlock_at) + ":"@ + decimal(amount) + ":"@
        + receiver
}

/// The text that the payer signs to release a step.
pub fn lock_signing_text(
    lock: &str,
    index: usize,
    unlock_at: i64,
    amount: i64,
    receiver: &str,
) -> (r: String)
    ensures
        r@ == signing_text(lock@, index as int, unlock_at as int, amount as int, receiver@),
{
    let at = write_u64(index as u64);
    let when = write_i64(unlock_at);
    let much = write_i64(amount);
    let head = join4(lock, ":", at.as_str(), ":");
    let middle = join4(head.as_str(), when.as_str(), ":", much.as_str());
    join3(middle.as_str(), ":", receiver)
}

/// A step after it was taken.
pub open spec fn taken(step: Tree, now: i64) -> Tree {
    step.with("consumed"@, Tree::Bool(true)).with("consumedAt"@, Tree::Whole(now))
}

/// What is left in a list of steps.
pub open spec fn left_in(steps: Seq<Tree>) -> int
    decreases steps.len(),
{
    if steps.len() == 0 {
        0
    } else {
        left_in(steps.drop_last()) + if steps.last().flag("consumed"@) {
            0
        } else {
            figure(steps.last(), "amount"@) as int
        }
    }
}

/// The steps after one of them was taken.
pub open spec fn steps_after(steps: Seq<Tree>, index: int, now: i64) -> Seq<Tree> {
    steps.update(index, taken(steps[index], now))
}

/// A lock after a step was taken of which something is left.
pub open spec fn lock_after(payment: Tree, steps: Seq<Tree>) -> Tree {
    payment.with("steps"@, Tree::Array(steps)).with(
        "remainingAmount"@,
        Tree::Whole(left_in(steps) as i64),
    ).with(
        "consumedAmount"@,
        Tree::Whole((figure(payment, "amount"@) - left_in(steps)) as i64),
    )
}

/// What taking a step answers: which step, and what is left in the lock.
pub struct Consumed {
    pub step: usize,
    pub remaining: i64,
}

/// The answer of taking a step, as numbers.
pub struct ConsumedState {
    pub step: int,
    pub remaining: int,
}

impl View for Consumed {
    type V = ConsumedState;

    open spec fn view(&self) -> ConsumedState {
        ConsumedState { step: self.step as int, remaining: self.remaining as int }
    }
}

/// The books after `receiver` took a step of a lock; `verified` is whether the payer's
/// signature on the step's text was found good.
pub open spec fn lock_consumed(
    books: Books,
    receiver: Seq<char>,
    input: ConsumeLockInput,
    now: i64,
    verified: bool,
) -> Result<(Books, ConsumedState), Seq<char>> {
    let payer = input.user_id@;
    let key = lock_key(payer, input.lock_id@);
    let payment = lookup(books.locks, key);
    let w = wallet_of(books.wallets, receiver);
    if input.typ@ != "pay"@ {
        Err("unknown lock type"@)
    } else if wallet_of(books.wallets, payer).balance is None {
        Err("payer user not found"@)
    } else {
        match chosen_step(payment, input.step, input.amount as int, now as int) {
            Err(e) => Err(e),
            Ok(index) => {
                let steps = steps_after(steps_in(payment), index, now);
                if !verified {
                    Err("signature not verified"@)
                } else if payment->0.text_or_empty("type"@) != "pay"@ {
                    Err("type is not payment"@)
                } else if payment->0.text_or_empty("userId"@) != receiver {
                    Err("you are not target"@)
                } else if balance_of(books.wallets, receiver) + input.amount > i64::MAX {
                    Err("receiver balance overflow"@)
                } else if w.balance is None {
                    Err("not found"@)
                } else if left_in(steps) > i64::MAX {
                    Err("remaining lock amount overflow"@)
                } else if left_in(steps) != 0 && figure(payment->0, "amount"@) <= 0 {
                    Err("invalid lock total amount"@)
                } else {
                    Ok(
                        (
                            Books {
                                wallets: stored(
                                    books.wallets,
                                    receiver,
                                    Wallet {
                                        balance: Some((w.balance->0 + input.amount) as i64),
                                        ..w
                                    },
                                ),
                                locks: if left_in(steps) == 0 {
                                    dropped(books.locks, key)
                                } else {
                                    stored(books.locks, key, lock_after(payment->0, steps))
                                },
                                ..books
                            },
                            ConsumedState { step: index, remaining: left_in(steps) },
                        ),
                    )
                }
            },
        }
    }
}

proof fn lemma_stored_refused_later(steps: Seq<Tree>, n: int)
    requires
        0 <= n <= steps.len(),
        stored_refusal(steps.subrange(0, n)) is Some,
    ensures
        stored_refusal(steps) == stored_refusal(steps.subrange(0, n)),
    decreases steps.len() - n,
{
    if n == steps.len() {
        assert(steps.subrange(0, n) =~= steps);
    } else {
        assert(steps.subrange(0, n + 1).drop_last() =~= steps.subrange(0, n));
        lemma_stored_refused_later(steps, n + 1);
    }
}

proof fn lemma_due_step(steps: Seq<Tree>, amount: int, now: int)
    ensures
        match due_step(steps, amount, now) {
            Some(i) => 0 <= i < steps.len() && is_due(steps[i], amount, now),
            None => true,
        },
    decreases steps.len(),
{
    if steps.len() > 0 {
        lemma_due_step(steps.drop_last(), amount, now);
    }
}

/// Every step of a list that can be read is an object with an amount and a time.
proof fn lemma_steps_readable(steps: Seq<Tree>)
    requires
        stored_refusal(steps) is None,
    ensures
        forall|i: int| 0 <= i < steps.len() ==> step_refusal(#[trigger] steps[i]) is None,
    decreases steps.len(),
{
    if steps.len() > 0 {
        lemma_steps_readable(steps.drop_last());
        assert forall|i: int| 0 <= i < steps.len() implies step_refusal(
            #[trigger] steps[i],
        ) is None by {
            if i < steps.len() - 1 {
                assert(steps.drop_last()[i] == steps[i]);
            }
        }
    }
}

/// The step of a lock that a request takes; what its payer signs is the text of that step.
pub fn select_lock_step(
    payment: Option<&Json>,
    step: Option<i64>,
    amount: i64,
    now: i64,
) -> (r: Result<usize, String>)
    ensures
        match r {
            Ok(index) => index < steps_in(
                match payment {
                    Some(lock) => Some(lock@),
                    None => None,
                },
            ).len() && chosen_step(
                match payment {
                    Some(lock) => Some(lock@),
                    None => None,
                },
                step,
                amount as int,
                now as int,
            ) == Ok::<int, Seq<char>>(index as int),
            Err(e) => chosen_step(
                match payment {
                    Some(lock) => Some(lock@),
                    None => None,
                },
                step,
                amount as int,
                now as int,
            ) == Err::<int, Seq<char>>(e@),
        },
{
    let lock = match payment {
        Some(lock) => lock,
        None => {
            return Err("lock not found".to_owned());
        },
    };
    let steps = match lock.items("steps") {
        Some(steps) => steps,
        None => {
            return Err("lock does not include steps".to_owned());
        },
    };
    if steps.len() == 0 {
        return Err("lock does not include steps".to_owned());
    }
    let named: i64 = match step {
        Some(n) => n,
        None => -1,
    };
    let ghost all = items_of(steps@);
    let mut due: Option<usize> = None;
    let mut i: usize = 0;
    assert(all.subrange(0, 0) =~= Seq::empty());
    while i < steps.len()
        invariant
            i <= steps@.len(),
            all == items_of(steps@),
            payment == Some(lock),
            steps_in(Some(lock@)) == all,
            all.len() > 0,
            stored_refusal(all.subrange(0, i as int)) is None,
            due_step(all.subrange(0, i as int), amount as int, now as int) == (match due {
                Some(at) => Some(at as int),
                None => None,
            }),
        decreases steps.len() - i,
    {
        let ghost upto = all.subrange(0, i + 1);
        assert(upto.drop_last() =~= all.subrange(0, i as int));
        assert(upto.last() == steps@[i as int]@);
        let one = &steps[i];
        let why: &str = if !one.is_object() {
            "invalid lock step"
        } else if figure_of(one, "amount") <= 0 {
            "invalid lock step amount"
        } else if figure_of(one, "unlockAt") <= 0 {
            "invalid lock step unlockAt"
        } else {
            ""
        };
        let bad: bool = !one.is_object() || figure_of(one, "amount") <= 0 || figure_of(
            one,
            "unlockAt",
        ) <= 0;
        if bad {
            proof {
                lemma_stored_refused_later(all, i + 1);
            }
            return Err(why.to_owned());
        }
        if due.is_none() && !one.flag("consumed") && now >= figure_of(one, "unlockAt")
            && figure_of(one, "amount") == amount {
            due = Some(i);
        }
        i = i + 1;
    }
    assert(all.subrange(0, all.len() as int) =~= all);
    proof {
        lemma_due_step(all, amount as int, now as int);
    }
    let index: i128 = if named != -1 {
        named as i128
    } else {
        match due {
            Some(at) => at as i128,
            None => -1,
        }
    };
    if index < 0 || index >= steps.len() as i128 {
        return Err("lock step not found".to_owned());
    }
    let at: usize = index as usize;
    let chosen = &steps[at];
    assert(chosen@ == all[at as int]);
    if now < figure_of(chosen, "unlockAt") {
        return Err("lock step is not consumable yet".to_owned());
    }
    if chosen.flag("consumed") {
        return Err("lock step already consumed".to_owned());
    }
    if amount != figure_of(chosen, "amount") {
        return Err("amount of payment not matched".to_owned());
    }
    Ok(at)
}

fn take_step(steps: &Vec<Json>, at: usize, now: i64) -> (r: Vec<Json>)
    requires
        at < steps@.len(),
    ensures
        items_of(r@) == steps_after(items_of(steps@), at as int, now),
{
    let mut out: Vec<Json> = Vec::new();
    let ghost goal = steps_after(items_of(steps@), at as int, now);
    let mut i: usize = 0;
    while i < steps.len()
        invariant
            i <= steps@.len(),
            at < steps@.len(),
            goal == steps_after(items_of(steps@), at as int, now),
            out@.len() == i,
            forall|j: int| 0 <= j < i ==> tree_at(out@, j) == #[trigger] goal[j],
        decreases steps.len() - i,
    {
        let mut one = steps[i].copy();
        if i == at {
            one = one.with("consumed", Json::Bool(true)).with("consumedAt", Json::Whole(now));
        }
        assert(one@ == goal[i as int]);
        out.push(one);
        i = i + 1;
    }
    assert(items_of(out@) =~= goal);
    out
}

spec fn tree_at(list: Seq<Json>, i: int) -> Tree {
    list[i]@
}

/// What is left never falls as steps are counted.
proof fn lemma_left_grows(steps: Seq<Tree>, n: int)
    requires
        0 <= n <= steps.len(),
        forall|i: int| 0 <= i < steps.len() ==> figure(#[trigger] steps[i], "amount"@) > 0,
    ensures
        0 <= left_in(steps.subrange(0, n)) <= left_in(steps),
    decreases steps.len(),
{
    if n == steps.len() {
        assert(steps.subrange(0, n) =~= steps);
        if n > 0 {
            lemma_left_grows(steps.drop_last(), n - 1);
            assert(steps.drop_last().subrange(0, n - 1) =~= steps.drop_last());
            assert(figure(steps[n - 1], "amount"@) > 0);
        }
    } else {
        lemma_left_grows(steps.drop_last(), n);
        assert(steps.drop_last().subrange(0, n) =~= steps.subrange(0, n));
        assert(figure(steps[steps.len() - 1], "amount"@) > 0);
    }
}

fn sum_left(steps: &Vec<Json>) -> (r: Option<i64>)
    requires
        forall|i: int|
            0 <= i < steps@.len() ==> figure(#[trigger] items_of(steps@)[i], "amount"@) > 0,
    ensures
        match r {
            Some(left) => left == left_in(items_of(steps@)) && left >= 0,
            None => left_in(items_of(steps@)) > i64::MAX,
        },
{
    let ghost all = items_of(steps@);
    let mut left: i64 = 0;
    let mut i: usize = 0;
    assert(all.subrange(0, 0) =~= Seq::empty());
    while i < steps.len()
        invariant
            i <= steps@.len(),
            all == items_of(steps@),
            left == left_in(all.subrange(0, i as int)),
            left >= 0,
            forall|i: int| 0 <= i < all.len() ==> figure(#[trigger] all[i], "amount"@) > 0,
        decreases steps.len() - i,
    {
        let ghost upto = all.subrange(0, i + 1);
        assert(upto.drop_last() =~= all.subrange(0, i as int));
        assert(upto.last() == steps@[i as int]@);
        proof {
            lemma_left_grows(all, i + 1);
        }
        if !steps[i].flag("consumed") {
            assert(figure(all[i as int], "amount"@) > 0);
            match left.checked_add(figure_of(&steps[i], "amount")) {
                Some(next) => {
                    left = next;
                },
                None => {
                    return None;
                },
            }
        }
        i = i + 1;
    }
    assert(all.subrange(0, all.len() as int) =~= all);
    Some(left)
}

/// Taking a step leaves its amount as it was.
proof fn lemma_taken_step(step: Tree, now: i64)
    ensures
        taken(step, now).flag("consumed"@),
        figure(taken(step, now), "amount"@) == figure(step, "amount"@),
        taken(step, now) is Object,
{
    reveal_strlit("consumed");
    reveal_strlit("consumedAt");
    reveal_strlit("amount");
    assert("consumed"@.len() != "consumedAt"@.len());
    assert("amount"@.len() != "consumed"@.len());
    assert("amount"@.len() != "consumedAt"@.len());
}

/// The text that the payer has to have signed for `receiver` to take a step; nothing where
/// there is no step to take.
pub open spec fn consumed_text(
    books: Books,
    receiver: Seq<char>,
    input: ConsumeLockInput,
    now: i64,
) -> Option<Seq<char>> {
    let payment = lookup(books.locks, lock_key(input.user_id@, input.lock_id@));
    if input.typ@ != "pay"@ || wallet_of(books.wallets, input.user_id@).balance is None {
        None
    } else {
        match chosen_step(payment, input.step, input.amount as int, now as int) {
            Err(_) => None,
            Ok(index) => Some(
                signing_text(
                    input.lock_id@,
                    index,
                    figure(steps_in(payment)[index], "unlockAt"@) as int,
                    input.amount as int,
                    receiver,
                ),
            ),
        }
    }
}

/// The text that the payer has to have signed for `receiver` to take a step.
pub fn consume_signing_text(
    ledger: &Ledger,
    receiver: &str,
    input: &ConsumeLockInput,
    now: i64,
) -> (r: Option<String>)
    ensures
        match r {
            Some(text) => consumed_text(ledger@, receiver@, *input, now) == Some(text@),
            None => consumed_text(ledger@, receiver@, *input, now) is None,
        },
{
    let payer = input.user_id.as_str();
    if !same(input.typ.as_str(), "pay") || wallet_in(&ledger.wallets, payer).balance.is_none() {
        return None;
    }
    let key = lock_key_of(payer, input.lock_id.as_str());
    let payment = ledger.locks.get(key.as_str());
    let at: usize = match select_lock_step(payment, input.step, input.amount, now) {
        Ok(at) => at,
        Err(_) => {
            return None;
        },
    };
    match payment {
        Some(lock) => match lock.items("steps") {
            Some(steps) => {
                assert(items_of(steps@)[at as int] == steps@[at as int]@);
                let unlock_at: i64 = figure_of(&steps[at], "unlockAt");
                Some(
                    lock_signing_text(
                        input.lock_id.as_str(),
                        at,
                        unlock_at,
                        input.amount,
                        receiver,
                    ),
                )
            },
            None => None,
        },
        None => None,
    }
}

/// Take a step of a lock for `receiver`. The payer's signature on the step's text decides
/// it, and the step is marked so that it cannot be taken again.
pub fn consume_lock(
    ledger: &mut Ledger,
    receiver: &str,
    input: &ConsumeLockInput,
    now: i64,
    verified: bool,
) -> (r: Result<Consumed, String>)
    ensures
        match r {
            Ok(reply) => lock_consumed(old(ledger)@, receiver@, *input, now, verified) == Ok::<
                (Books, ConsumedState),
                Seq<char>,
            >((final(ledger)@, reply@)),
            Err(e) => final(ledger)@ == old(ledger)@ && lock_consumed(
                old(ledger)@,
                receiver@,
                *input,
                now,
                verified,
            ) == Err::<(Books, ConsumedState), Seq<char>>(e@),
        },
{
    let payer = input.user_id.as_str();
    if !same(input.typ.as_str(), "pay") {
        return Err("unknown lock type".to_owned());
    }
    if wallet_in(&ledger.wallets, payer).balance.is_none() {
        return Err("payer user not found".to_owned());
    }
    let key = lock_key_of(payer, input.lock_id.as_str());
    let found = ledger.locks.get(key.as_str());
    let at: usize = match select_lock_step(found, input.step, input.amount, now) {
        Ok(at) => at,
        Err(e) => {
            return Err(e);
        },
    };
    let payment = match found {
        Some(payment) => payment,
        None => {
            return Err("lock not found".to_owned());
        },
    };
    if !verified {
        return Err("signature not verified".to_owned());
    }
    if !same(payment.text_or_empty("type"), "pay") {
        return Err("type is not payment".to_owned());
    }
    if !same(payment.text_or_empty("userId"), receiver) {
        return Err("you are not target".to_owned());
    }
    let w = wallet_in(&ledger.wallets, receiver);
    let balance: i64 = match w.balance {
        Some(balance) => balance,
        None => 0,
    };
    proof {
        lemma_steps_readable(steps_in(Some(payment@)));
        assert(step_refusal(steps_in(Some(payment@))[at as int]) is None);
    }
    let credited: i64 = match balance.checked_add(input.amount) {
        Some(next) => next,
        None => {
            return Err("receiver balance overflow".to_owned());
        },
    };
    if w.balance.is_none() {
        return Err("not found".to_owned());
    }
    let steps: Vec<Json> = match payment.items("steps") {
        Some(steps) => take_step(steps, at, now),
        None => Vec::new(),
    };
    proof {
        let was = steps_in(Some(payment@));
        assert(items_of(steps@) == steps_after(was, at as int, now));
        lemma_taken_step(was[at as int], now);
        assert forall|i: int| 0 <= i < steps@.len() implies figure(
            #[trigger] items_of(steps@)[i],
            "amount"@,
        ) > 0 by {
            assert(step_refusal(was[i]) is None);
        }
    }
    let left: i64 = match sum_left(&steps) {
        Some(left) => left,
        None => {
            return Err("remaining lock amount overflow".to_owned());
        },
    };
    let total: i64 = figure_of(payment, "amount");
    let next: Option<Json> = if left == 0 {
        None
    } else {
        if total <= 0 {
            return Err("invalid lock total amount".to_owned());
        }
        proof {
            lemma_array(steps);
        }
        Some(
            payment.copy().with("steps", Json::Array(steps)).with(
                "remainingAmount",
                Json::Whole(left),
            ).with("consumedAmount", Json::Whole(total - left)),
        )
    };
    ledger.wallets.put(receiver, Wallet { balance: Some(credited), ..w });
    match next {
        None => ledger.locks.remove(key.as_str()),
        Some(record) => ledger.locks.put(key.as_str(), record),
    }
    Ok(Consumed { step: at, remaining: left })
}

// ---------------------------------------------------------------- laws

/// No step is taken without the payer's signature on the text that names it: the lock, the
/// step, its time, its amount, and the receiver.
pub proof fn law_a_taken_step_was_signed_for(
    books: Books,
    receiver: Seq<char>,
    input: ConsumeLockInput,
    now: i64,
    verified: bool,
    after: Books,
    answer: ConsumedState,
)
    requires
        lock_consumed(books, receiver, input, now, verified) == Ok::<
            (Books, ConsumedState),
            Seq<char>,
        >((after, answer)),
    ensures
        verified,
        consumed_text(books, receiver, input, now) == Some(
            signing_text(
                input.lock_id@,
                answer.step,
                figure(
                    steps_in(lookup(books.locks, lock_key(input.user_id@, input.lock_id@)))[
                        answer.step
                    ],
                    "unlockAt"@,
                ) as int,
                input.amount as int,
                receiver,
            ),
        ),
{
}

proof fn lemma_left_after(steps: Seq<Tree>, index: int, now: i64)
    requires
        0 <= index < steps.len(),
        !steps[index].flag("consumed"@),
    ensures
        left_in(steps_after(steps, index, now)) == left_in(steps) - figure(
            steps[index],
            "amount"@,
        ),
    decreases steps.len(),
{
    let after = steps_after(steps, index, now);
    if index == steps.len() - 1 {
        lemma_taken_step(steps[index], now);
        assert(after.drop_last() =~= steps.drop_last());
    } else {
        lemma_left_after(steps.drop_last(), index, now);
        assert(after.drop_last() =~= steps_after(steps.drop_last(), index, now));
    }
}

/// Taking a step pays the receiver exactly what leaves the lock.
pub proof fn law_a_taken_step_leaves_the_lock(
    books: Books,
    receiver: Seq<char>,
    input: ConsumeLockInput,
    now: i64,
    verified: bool,
    after: Books,
    reply: ConsumedState,
)
    requires
        lock_consumed(books, receiver, input, now, verified) == Ok::<
            (Books, ConsumedState),
            Seq<char>,
        >((after, reply)),
    ensures
        verified,
        reply.remaining == left_in(
            steps_in(lookup(books.locks, lock_key(input.user_id@, input.lock_id@))),
        ) - input.amount,
        balance_of(after.wallets, receiver) == balance_of(books.wallets, receiver) + input.amount,
{
    let steps = steps_in(lookup(books.locks, lock_key(input.user_id@, input.lock_id@)));
    let payment = lookup(books.locks, lock_key(input.user_id@, input.lock_id@));
    lemma_due_step(steps, input.amount as int, now as int);
    let index = chosen_step(payment, input.step, input.amount as int, now as int)->Ok_0;
    lemma_left_after(steps, index, now);
    lemma_steps_readable(steps);
    let left = steps_after(steps, index, now);
    assert forall|i: int| 0 <= i < left.len() implies figure(#[trigger] left[i], "amount"@) > 0 by {
        lemma_taken_step(steps[index], now);
        assert(step_refusal(steps[i]) is None);
    }
    lemma_left_grows(left, left.len() as int);
    assert(left.subrange(0, left.len() as int) =~= left);
}

/// A step is taken at most once: naming it again is refused, whoever asks and however it
/// is signed.
pub proof fn law_a_step_is_taken_once(
    books: Books,
    receiver: Seq<char>,
    input: ConsumeLockInput,
    now: i64,
    after: Books,
    reply: ConsumedState,
    other: Seq<char>,
    again: ConsumeLockInput,
    later: i64,
    verified: bool,
)
    requires
        lock_consumed(books, receiver, input, now, true) == Ok::<(Books, ConsumedState), Seq<char>>(
            (after, reply),
        ),
        again.user_id@ == input.user_id@,
        again.lock_id@ == input.lock_id@,
        again.step matches Some(step) && step == reply.step,
    ensures
        lock_consumed(after, other, again, later, verified) is Err,
{
    let key = lock_key(input.user_id@, input.lock_id@);
    let payment = lookup(books.locks, key);
    let steps = steps_in(payment);
    lemma_due_step(steps, input.amount as int, now as int);
    let index = chosen_step(payment, input.step, input.amount as int, now as int)->Ok_0;
    let left = steps_after(steps, index, now);
    lemma_taken_step(steps[index], now);
    if left_in(left) == 0 {
        crate::table::law_lookup_after_drop(books.locks, key, key);
        assert(lookup(after.locks, key) is None);
    } else {
        let next = lock_after(payment->0, left);
        assert(lookup(after.locks, key) == Some(next));
        reveal_strlit("steps");
        reveal_strlit("remainingAmount");
        reveal_strlit("consumedAmount");
        assert("steps"@.len() != "remainingAmount"@.len());
        assert("steps"@.len() != "consumedAmount"@.len());
        assert(steps_in(Some(next)) == left);
        assert(left[index].flag("consumed"@));
    }
}

/// What a payer locks leaves the balance and stands in the lock.
pub proof fn law_a_lock_holds_what_left_the_balance(
    books: Books,
    payer: Seq<char>,
    input: LockTokenInput,
    lock_id: Seq<char>,
    after: Books,
)
    requires
        token_locked(books, payer, input, lock_id) == Ok::<Books, Seq<char>>(after),
    ensures
        balance_of(after.wallets, payer) + left_in(
            steps_in(lookup(after.locks, lock_key(payer, lock_id))),
        ) == balance_of(books.wallets, payer),
{
    let steps = steps_to_lock(input)->Ok_0;
    let record = lock_record(input.target@, steps);
    reveal_strlit("steps");
    reveal_strlit("userId");
    reveal_strlit("type");
    reveal_strlit("amount");
    reveal_strlit("remainingAmount");
    assert(lookup(after.locks, lock_key(payer, lock_id)) == Some(record));
    assert(record.items("steps"@) == Some(step_records(steps)));
    lemma_new_steps(steps);
    if input.steps@.len() > 0 {
        lemma_not_refused(input.steps@);
    }
    assert(steps.len() > 0);
    assert(steps.last().amount > 0);
    lemma_total_grows(steps, steps.len() - 1);
    assert(steps.subrange(0, steps.len() - 1) =~= steps.drop_last());
}

proof fn lemma_new_steps(steps: Seq<LockStepInput>)
    ensures
        left_in(step_records(steps)) == locked_total(steps),
    decreases steps.len(),
{
    if steps.len() > 0 {
        lemma_new_steps(steps.drop_last());
        assert(step_records(steps).drop_last() =~= step_records(steps.drop_last()));
        let one = step_record(steps.last());
        reveal_strlit("amount");
        reveal_strlit("unlockAt");
        reveal_strlit("consumed");
        assert("unlockAt"@[0] == 'u');
        assert("consumed"@[0] == 'c');
        assert("amount"@.len() != "unlockAt"@.len());
        assert("amount"@.len() != "consumed"@.len());
        assert(one.number("amount"@) == Some(steps.last().amount));
        assert(one.field("consumed"@) == Some(Tree::Bool(false)));
        assert(step_records(steps).last() == one);
    }
}

} // verus!
