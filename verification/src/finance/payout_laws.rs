//! Payouts, payment adjustments, and what an account shows of them.
use vstd::prelude::*;

use crate::finance::accounts::{
    account_read, found, newest, page_size, AccountState, GetFinancialAccountInput,
};
use crate::finance::ids::is_finance_id;
use crate::finance::journal::{posted, posting};
use crate::finance::ledger::{wallet_of, Books, PayoutState, Wallet};
use crate::finance::payouts::{
    newest_first, payment_adjusted, payout_place, payout_requested, payout_resolved, payouts_listed,
    AdjustmentAnswer, ListPayoutsInput, PaymentAdjustmentInput, PayoutAnswer, RequestPayoutInput,
    ResolvePayoutInput,
};
use crate::json::Tree;

use crate::table::{law_lookup_after_store, lookup, Rows};
use crate::text::{is_control, trimmed};
use vstd::utf8::encode_utf8;

verus! {

broadcast use law_lookup_after_store;

// ---------------------------------------------------------------- the journal

/// Whether the posting at a place of a journal entry moves an amount into an account.
pub open spec fn posts(payload: Tree, at: int, account: Seq<char>, amount: int) -> bool {
    payload.items("entries"@) matches Some(list) && 0 <= at < list.len() && list[at].text(
        "account"@,
    ) == Some(account) && list[at].whole("amount"@) == Some(amount as i64)
}

/// A posting names its account and its amount.
pub proof fn lemma_posted(amounts: Seq<(Seq<char>, int)>, at: int)
    requires
        0 <= at < amounts.len(),
    ensures
        posts(posted(amounts), at, amounts[at].0, amounts[at].1),
        posted(amounts).items("entries"@)->0.len() == amounts.len(),
{
    reveal_strlit("account");
    reveal_strlit("amount");
    assert("account"@.len() == 7 && "amount"@.len() == 6);
    let list = posted(amounts).items("entries"@)->0;
    assert(list[at] == posting(amounts[at].0, amounts[at].1));
}

// ---------------------------------------------------------------- requesting

/// Whether a text holds a control character.
pub open spec fn has_control(s: Seq<char>) -> bool {
    exists|i: int| 0 <= i < s.len() && is_control(#[trigger] s[i])
}

/// A first request for a payout is taken exactly where it asks for something to a short plain
/// destination, and a wallet without debt may withdraw as much and has it.
pub proof fn law_withdrawable_earnings_can_be_requested(
    books: Books,
    user: Seq<char>,
    input: RequestPayoutInput,
    now: i64,
    payout_id: Seq<char>,
    journal_id: Seq<char>,
)
    requires
        lookup(books.links, "FinancePayoutRequest::"@ + user + "::"@ + input.request_id@) is None,
    ensures
        (payout_requested(books, user, input, now, payout_id, journal_id) is Ok) == {
            let w = wallet_of(books.wallets, user);
            &&& is_finance_id(input.request_id@)
            &&& input.amount > 0
            &&& 0 < trimmed(input.destination_ref@).len()
            &&& encode_utf8(trimmed(input.destination_ref@)).len() <= 256
            &&& !has_control(trimmed(input.destination_ref@))
            &&& w.debt == 0
            &&& w.balance matches Some(balance) && input.amount <= balance
            &&& input.amount <= w.withdrawable
            &&& 0 <= w.payout_held && w.payout_held + input.amount <= i64::MAX
        },
{
}

/// A requested payout moves its amount from what the user may withdraw to what is kept back, is
/// recorded as pending, and touches no other wallet or record.
pub proof fn law_a_requested_payout_is_kept_back(
    books: Books,
    user: Seq<char>,
    input: RequestPayoutInput,
    now: i64,
    payout_id: Seq<char>,
    journal_id: Seq<char>,
    after: Books,
    answer: PayoutAnswer,
)
    requires
        payout_requested(books, user, input, now, payout_id, journal_id) == Ok::<
            (Books, PayoutAnswer),
            Seq<char>,
        >((after, answer)),
        answer.applied,
    ensures
        ({
            let was = wallet_of(books.wallets, user);
            let is = wallet_of(after.wallets, user);
            let payout = answer.payout;
            &&& is.balance matches Some(left) && left == was.balance->0 - input.amount
            &&& is.withdrawable == was.withdrawable - input.amount
            &&& is.payout_held == was.payout_held + input.amount
            &&& is.held == was.held && is.debt == was.debt
            &&& is.earned == was.earned && is.spent == was.spent
            &&& lookup(after.payouts, payout_id) == Some(payout)
            &&& payout.user_id == user
            &&& payout.request_id == input.request_id@
            &&& payout.amount == input.amount
            &&& payout.destination_ref == trimmed(input.destination_ref@)
            &&& payout.status == "pending"@
            &&& payout.created_at == now
            &&& payout.resolution_id.len() == 0 && payout.resolved_at == 0
            &&& answer.journal_id == Some(journal_id)
        }),
        forall|other: Seq<char>|
            other != user ==> #[trigger] wallet_of(after.wallets, other) == wallet_of(
                books.wallets,
                other,
            ),
        forall|id: Seq<char>|
            id != payout_id ==> #[trigger] lookup(after.payouts, id) == lookup(books.payouts, id),
        after == (Books {
            wallets: after.wallets,
            payouts: after.payouts,
            links: after.links,
            journal: after.journal,
            ..books
        }),
        lookup(after.journal, journal_id) matches Some(entry) && {
            &&& entry.kind == "payout.requested"@
            &&& entry.payer_user_id == user
            &&& entry.created_at == now
            &&& posts(entry.payload, 0, "wallet:"@ + user + ":available"@, -input.amount as int)
            &&& posts(entry.payload, 1, "wallet:"@ + user + ":payout_held"@, input.amount as int)
            &&& entry.payload.text("payoutId"@) == Some(payout_id)
            &&& entry.payload.text("destinationRef"@) == Some(trimmed(input.destination_ref@))
        },
{
    reveal_strlit("entries");
    reveal_strlit("payoutId");
    reveal_strlit("destinationRef");
    assert("entries"@.len() == 7 && "payoutId"@.len() == 8 && "destinationRef"@.len() == 14);
    let amounts = seq![
        ("wallet:"@ + user + ":available"@, -(input.amount as int)),
        ("wallet:"@ + user + ":payout_held"@, input.amount as int),
    ];
    lemma_posted(amounts, 0);
    lemma_posted(amounts, 1);
}

// ---------------------------------------------------------------- deciding

/// A first decision on a pending payout is taken exactly from the platform's owner, as paid with a
/// reference or rejected, where the wallet keeps as much back and, on a rejection, can take it.
pub proof fn law_the_platform_decides_pending_payouts(
    books: Books,
    caller: Seq<char>,
    input: ResolvePayoutInput,
    now: i64,
    journal_id: Seq<char>,
    payout: PayoutState,
)
    requires
        lookup(books.links, "FinancePayoutResolution::"@ + input.resolution_id@) is None,
        lookup(books.payouts, input.payout_id@) == Some(payout),
        ({
            let w = wallet_of(books.wallets, payout.user_id);
            &&& payout.amount <= w.payout_held
            &&& 0 <= w.payout_held
            &&& w.balance matches Some(balance) && balance + payout.amount <= i64::MAX
            &&& 0 <= w.withdrawable && w.withdrawable + payout.amount <= i64::MAX
        }),
    ensures
        (payout_resolved(books, caller, input, now, journal_id) is Ok) == {
            &&& caller == "1@global"@
            &&& is_finance_id(input.payout_id@)
            &&& is_finance_id(input.resolution_id@)
            &&& input.status@ == "rejected"@ || input.status@ == "paid"@ && 0 < trimmed(
                input.provider_reference@,
            ).len()
            &&& encode_utf8(input.provider_reference@).len() <= 256
            &&& !has_control(input.provider_reference@)
            &&& encode_utf8(input.reason@).len() <= 256
            &&& !has_control(input.reason@)
            &&& payout.status == "pending"@
            &&& payout.user_id.len() > 0
            &&& payout.amount > 0
        },
{
    reveal_strlit("paid");
    reveal_strlit("rejected");
    assert("paid"@.len() == 4 && "rejected"@.len() == 8);
}

/// A payout that is paid leaves what its owner keeps back; one that is rejected goes back to what
/// they have and may withdraw. Either way it is recorded as decided, and nobody else is touched.
pub proof fn law_a_decided_payout_leaves_or_goes_back(
    books: Books,
    caller: Seq<char>,
    input: ResolvePayoutInput,
    now: i64,
    journal_id: Seq<char>,
    after: Books,
    answer: PayoutAnswer,
)
    requires
        payout_resolved(books, caller, input, now, journal_id) == Ok::<
            (Books, PayoutAnswer),
            Seq<char>,
        >((after, answer)),
        answer.applied,
    ensures
        lookup(books.payouts, input.payout_id@) matches Some(payout) && {
            let user = payout.user_id;
            let was = wallet_of(books.wallets, user);
            let is = wallet_of(after.wallets, user);
            &&& payout.status == "pending"@
            &&& is.payout_held == was.payout_held - payout.amount
            &&& input.status@ == "paid"@ ==> is == (Wallet { payout_held: is.payout_held, ..was })
            &&& input.status@ == "rejected"@ ==> {
                &&& is.balance matches Some(later) && later == was.balance->0 + payout.amount
                &&& is.withdrawable == was.withdrawable + payout.amount
                &&& is == (Wallet {
                    payout_held: is.payout_held,
                    balance: is.balance,
                    withdrawable: is.withdrawable,
                    ..was
                })
            }
            &&& forall|other: Seq<char>|
                other != user ==> #[trigger] wallet_of(after.wallets, other) == wallet_of(
                    books.wallets,
                    other,
                )
            &&& answer.payout == (PayoutState {
                status: input.status@,
                provider_reference: input.provider_reference@,
                reason: input.reason@,
                resolution_id: input.resolution_id@,
                resolved_at: now as int,
                ..payout
            })
            &&& lookup(after.journal, journal_id) matches Some(entry) && {
                &&& entry.kind == "payout."@ + input.status@
                &&& entry.payer_user_id == user
                &&& entry.created_at == now
                &&& posts(entry.payload, 0, "wallet:"@ + user + ":payout_held"@, -payout.amount)
                &&& input.status@ == "paid"@ ==> posts(
                    entry.payload,
                    1,
                    "external:payouts"@,
                    payout.amount,
                )
                &&& input.status@ == "rejected"@ ==> posts(
                    entry.payload,
                    1,
                    "wallet:"@ + user + ":available"@,
                    payout.amount,
                )
                &&& entry.payload.text("payoutId"@) == Some(input.payout_id@)
                &&& entry.payload.text("reason"@) == Some(input.reason@)
            }
        },
        lookup(after.payouts, input.payout_id@) == Some(answer.payout),
        answer.journal_id == Some(journal_id),
        forall|id: Seq<char>|
            id != input.payout_id@ ==> #[trigger] lookup(after.payouts, id) == lookup(
                books.payouts,
                id,
            ),
        after == (Books {
            wallets: after.wallets,
            payouts: after.payouts,
            links: after.links,
            journal: after.journal,
            ..books
        }),
{
    reveal_strlit("paid");
    reveal_strlit("rejected");
    reveal_strlit("entries");
    reveal_strlit("payoutId");
    reveal_strlit("providerReference");
    reveal_strlit("reason");
    assert("paid"@.len() == 4 && "rejected"@.len() == 8);
    assert("entries"@.len() == 7 && "payoutId"@.len() == 8);
    assert("providerReference"@.len() == 17 && "reason"@.len() == 6);
    let payout = lookup(books.payouts, input.payout_id@)->0;
    let user = payout.user_id;
    let amounts = seq![
        ("wallet:"@ + user + ":payout_held"@, -payout.amount),
        (
            if input.status@ == "rejected"@ {
                "wallet:"@ + user + ":available"@
            } else {
                "external:payouts"@
            },
            payout.amount,
        ),
    ];
    lemma_posted(amounts, 0);
    lemma_posted(amounts, 1);
}

// ---------------------------------------------------------------- adjusting

/// A first payment adjustment is taken exactly from the platform's owner, for a known kind, a short
/// reference and small metadata, with an amount that only a manual credit may add, on a wallet that
/// reads well and can take it.
pub proof fn law_the_platform_adjusts_payments(
    books: Books,
    caller: Seq<char>,
    input: PaymentAdjustmentInput,
    metadata_size: int,
    now: i64,
    journal_id: Seq<char>,
)
    requires
        lookup(books.links, "PaymentAdjustment::"@ + input.idempotency_key@) is None,
        ({
            let w = wallet_of(books.wallets, input.user_id@);
            &&& w.balance matches Some(balance) && 0 <= w.withdrawable <= balance && balance
                + input.amount <= i64::MAX
            &&& 0 <= w.debt && w.debt - input.amount <= i64::MAX
            &&& 0 <= w.held && 0 <= w.payout_held && 0 <= w.earned && 0 <= w.spent
            &&& input.amount > i64::MIN
        }),
    ensures
        (payment_adjusted(books, caller, input, metadata_size, now, journal_id) is Ok) == {
            &&& caller == "1@global"@
            &&& is_finance_id(input.user_id@)
            &&& is_finance_id(input.idempotency_key@)
            &&& 0 < input.reference@.len()
            &&& encode_utf8(input.reference@).len() <= 256
            &&& metadata_size <= 4096
            &&& is_finance_id(input.kind@)
            &&& input.amount < 0 && (input.kind@ == "refund"@ || input.kind@ == "chargeback"@
                || input.kind@ == "dispute"@ || input.kind@ == "manual_debit"@ || input.kind@
                == "manual_credit"@) || input.amount > 0 && input.kind@ == "manual_credit"@
        },
        payment_adjusted(books, caller, input, metadata_size, now, journal_id) matches Ok((_, answer))
            ==> answer.applied,
{
}

/// An adjustment adds to a balance what is left after the debt is paid off, or takes from it what
/// is there and leaves the rest as debt; what may be withdrawn never exceeds the balance. Nobody
/// else is touched.
pub proof fn law_an_adjustment_meets_balance_and_debt(
    books: Books,
    caller: Seq<char>,
    input: PaymentAdjustmentInput,
    metadata_size: int,
    now: i64,
    journal_id: Seq<char>,
    after: Books,
    answer: AdjustmentAnswer,
)
    requires
        payment_adjusted(books, caller, input, metadata_size, now, journal_id) == Ok::<
            (Books, AdjustmentAnswer),
            Seq<char>,
        >((after, answer)),
        answer.applied,
        wallet_of(books.wallets, input.user_id@).balance->0 >= 0,
    ensures
        ({
            let user = input.user_id@;
            let was = wallet_of(books.wallets, user);
            let is = wallet_of(after.wallets, user);
            let has = was.balance->0 as int;
            let owes = was.debt as int;
            let amount = input.amount as int;
            let net = has - owes + amount;
            &&& is.held == was.held && is.payout_held == was.payout_held
            &&& is.earned == was.earned && is.spent == was.spent
            &&& amount > 0 && owes <= amount ==> is.balance == Some((has + amount - owes) as i64)
                && is.debt == 0 && is.withdrawable == was.withdrawable
            &&& amount > 0 && owes > amount ==> is.balance == was.balance && is.debt == owes - amount
                && is.withdrawable == was.withdrawable
            &&& amount < 0 && -amount <= has ==> is.balance == Some((has + amount) as i64)
                && is.debt == was.debt && is.withdrawable == if was.withdrawable <= has + amount {
                was.withdrawable as int
            } else {
                has + amount
            }
            &&& amount < 0 && -amount > has ==> is.balance == Some(0i64) && is.debt == owes - amount
                - has && is.withdrawable == 0
            &&& answer.journal_id == journal_id
            &&& answer.account.user_id == user
            &&& answer.account.available == is.balance->0
            &&& answer.account.debt == is.debt
            &&& lookup(after.journal, journal_id) matches Some(entry) && {
                &&& entry.kind == "payment."@ + input.kind@
                &&& entry.payer_user_id == user
                &&& entry.created_at == now
                &&& posts(entry.payload, 0, "wallet:"@ + user + ":available"@, is.balance->0 - has)
                &&& posts(entry.payload, 1, "wallet:"@ + user + ":debt"@, is.debt - owes)
                &&& posts(entry.payload, 2, "external:payments"@, -amount)
                &&& entry.payload.whole("adjustmentAmount"@) == Some(input.amount)
                &&& entry.payload.text("kind"@) == Some(input.kind@)
                &&& entry.payload.text("reference"@) == Some(input.reference@)
                &&& entry.payload.field("metadata"@) == Some(input.metadata@)
            }
        }),
        forall|other: Seq<char>|
            other != input.user_id@ ==> #[trigger] wallet_of(after.wallets, other) == wallet_of(
                books.wallets,
                other,
            ),
        after == (Books {
            wallets: after.wallets,
            links: after.links,
            journal: after.journal,
            ..books
        }),
{
    reveal_strlit("entries");
    reveal_strlit("adjustmentAmount");
    reveal_strlit("kind");
    reveal_strlit("reference");
    reveal_strlit("metadata");
    assert("entries"@.len() == 7 && "adjustmentAmount"@.len() == 16);
    assert("kind"@.len() == 4 && "reference"@.len() == 9 && "metadata"@.len() == 8);
    let user = input.user_id@;
    let was = wallet_of(books.wallets, user);
    let is = wallet_of(after.wallets, user);
    let amounts = seq![
        ("wallet:"@ + user + ":available"@, is.balance->0 - was.balance->0),
        ("wallet:"@ + user + ":debt"@, is.debt - was.debt),
        ("external:payments"@, -(input.amount as int)),
    ];
    lemma_posted(amounts, 0);
    lemma_posted(amounts, 1);
    lemma_posted(amounts, 2);
}

// ---------------------------------------------------------------- accounts

/// An account is shown to its owner and to the platform's owner alone, where its counters read
/// well, and shows exactly what the wallet holds.
pub proof fn law_an_account_shows_its_wallet(
    books: Books,
    caller: Seq<char>,
    input: GetFinancialAccountInput,
)
    ensures
        ({
            let user = if input.user_id@.len() == 0 {
                caller
            } else {
                input.user_id@
            };
            let w = wallet_of(books.wallets, user);
            &&& (account_read(books, caller, input) is Ok) == {
                &&& is_finance_id(user)
                &&& user == caller || caller == "1@global"@
                &&& w.balance is Some
                &&& 0 <= w.held && 0 <= w.debt && 0 <= w.withdrawable
                &&& 0 <= w.payout_held && 0 <= w.earned && 0 <= w.spent
            }
            &&& account_read(books, caller, input) matches Ok(account) ==> {
                &&& account.user_id == user
                &&& account.available == w.balance->0
                &&& account.held == w.held
                &&& account.debt == w.debt
                &&& account.withdrawable == w.withdrawable
                &&& account.payout_held == w.payout_held
                &&& account.earned == w.earned
                &&& account.spent == w.spent
                &&& account.pool matches Some(pool) ==> pool.status == "open"@ && lookup(
                    books.pools,
                    lookup(books.links, "FinancePoolByUser::"@ + user)->0,
                ) == Some(pool)
                &&& account.pool is None ==> (lookup(
                    books.links,
                    "FinancePoolByUser::"@ + user,
                ) matches Some(id) ==> (id.len() > 0 ==> (lookup(books.pools, id) matches Some(
                    pool,
                ) ==> pool.status != "open"@)))
            }
        }),
{
}

/// The active holds that an account shows are open or running ones of the books, and every one
/// among the hundred newest of the payer is shown.
pub proof fn law_an_account_shows_active_holds(
    books: Books,
    caller: Seq<char>,
    input: GetFinancialAccountInput,
    account: AccountState,
    id: Seq<char>,
)
    requires
        account_read(books, caller, input) == Ok::<AccountState, Seq<char>>(account),
    ensures
        ({
            let ids = newest(
                books.links,
                "FinanceHoldByPayer::"@ + account.user_id + "::"@,
                100,
            );
            &&& ids.contains(id) && (lookup(books.holds, id) matches Some(hold) && (hold.status
                == "open"@ || hold.status == "running"@)) ==> account.active_holds.contains(
                lookup(books.holds, id)->0,
            )
            &&& forall|i: int|
                0 <= i < account.active_holds.len() ==> (#[trigger] account.active_holds[i]).status
                    == "open"@ || account.active_holds[i].status == "running"@
        }),
{
    let ids = newest(books.links, "FinanceHoldByPayer::"@ + account.user_id + "::"@, 100);
    let list = found(books.holds, ids);
    lemma_active(list);
    if ids.contains(id) && lookup(books.holds, id) is Some {
        lemma_found(books.holds, ids, id);
        let hold = lookup(books.holds, id)->0;
        if hold.status == "open"@ || hold.status == "running"@ {
            lemma_active_kept(list, hold);
        }
    }
}

proof fn lemma_found<T>(rows: Rows<T>, ids: Seq<Seq<char>>, id: Seq<char>)
    requires
        ids.contains(id),
        lookup(rows, id) is Some,
    ensures
        found(rows, ids).contains(lookup(rows, id)->0),
    decreases ids.len(),
{
    let front = ids.drop_last();
    let list = found(rows, ids);
    if ids.last() == id {
        assert(list[list.len() - 1] == lookup(rows, id)->0);
    } else {
        let i = choose|i: int| 0 <= i < ids.len() && ids[i] == id;
        assert(front[i] == id);
        lemma_found(rows, front, id);
        let before = found(rows, front);
        let j = choose|j: int| 0 <= j < before.len() && before[j] == lookup(rows, id)->0;
        assert(list[j] == before[j]);
    }
}

proof fn lemma_active(list: Seq<crate::finance::ledger::HoldState>)
    ensures
        forall|i: int|
            0 <= i < crate::finance::accounts::active(list).len() ==> (
            #[trigger] crate::finance::accounts::active(list)[i]).status == "open"@
                || crate::finance::accounts::active(list)[i].status == "running"@,
    decreases list.len(),
{
    if list.len() > 0 {
        lemma_active(list.drop_last());
    }
}

proof fn lemma_active_kept(
    list: Seq<crate::finance::ledger::HoldState>,
    hold: crate::finance::ledger::HoldState,
)
    requires
        list.contains(hold),
        hold.status == "open"@ || hold.status == "running"@,
    ensures
        crate::finance::accounts::active(list).contains(hold),
    decreases list.len(),
{
    let front = list.drop_last();
    let all = crate::finance::accounts::active(list);
    if list.last() == hold {
        assert(all[all.len() - 1] == hold);
    } else {
        let i = choose|i: int| 0 <= i < list.len() && list[i] == hold;
        assert(front[i] == hold);
        lemma_active_kept(front, hold);
        let before = crate::finance::accounts::active(front);
        let j = choose|j: int| 0 <= j < before.len() && before[j] == hold;
        assert(all[j] == hold);
    }
}

/// Payouts are listed to their owner and to the platform's owner alone, who sees everyone's where
/// no user is named; a list has at most two hundred, and fifty where no count is asked for.
pub proof fn law_payouts_are_listed_to_their_owner(
    books: Books,
    caller: Seq<char>,
    input: ListPayoutsInput,
)
    ensures
        (payouts_listed(books, caller, input) is Err) == (input.user_id@.len() > 0 && input.user_id@
            != caller && caller != "1@global"@),
        input.user_id@.len() == 0 && caller == "1@global"@ ==> (payouts_listed(
            books,
            caller,
            input,
        ) matches Ok(list) ==> list.len() <= 200 && (input.limit <= 0 ==> list.len() <= 50) && (0
            < input.limit <= 200 ==> list.len() <= input.limit) && (books.payouts.len() <= 50
            && input.limit <= 0 ==> list.len() == books.payouts.len())),
        input.user_id@ == caller ==> payouts_listed(books, caller, input) == payouts_listed(
            books,
            "1@global"@,
            input,
        ) || caller.len() == 0,
{
    lemma_newest_first(books.payouts);
}

proof fn lemma_newest_first(rows: Rows<PayoutState>)
    ensures
        newest_first(rows).len() == rows.len(),
    decreases rows.len(),
{
    if rows.len() > 0 {
        lemma_newest_first(rows.drop_last());
        lemma_place(newest_first(rows.drop_last()), rows.last().1);
    }
}

proof fn lemma_place(list: Seq<PayoutState>, payout: PayoutState)
    ensures
        0 <= payout_place(list, payout) <= list.len(),
    decreases list.len(),
{
    if list.len() > 0 {
        lemma_place(list.drop_last(), payout);
    }
}

proof fn lemma_place_orders(list: Seq<PayoutState>, payout: PayoutState)
    requires
        forall|i: int, j: int|
            0 <= i < j < list.len() ==> (#[trigger] list[i]).created_at >= (
            #[trigger] list[j]).created_at,
    ensures
        forall|i: int|
            0 <= i < payout_place(list, payout) ==> (#[trigger] list[i]).created_at
                >= payout.created_at,
        forall|i: int|
            payout_place(list, payout) <= i < list.len() ==> (#[trigger] list[i]).created_at
                < payout.created_at,
    decreases list.len(),
{
    if list.len() > 0 && list.last().created_at < payout.created_at {
        let front = list.drop_last();
        assert forall|i: int, j: int| 0 <= i < j < front.len() implies (
        #[trigger] front[i]).created_at >= (#[trigger] front[j]).created_at by {
            assert(list[i].created_at >= list[j].created_at);
        }
        lemma_place_orders(front, payout);
        lemma_place(front, payout);
        assert forall|i: int| payout_place(list, payout) <= i < list.len() implies (
        #[trigger] list[i]).created_at < payout.created_at by {
            if i < front.len() {
                assert(front[i].created_at < payout.created_at);
            }
        }
        assert forall|i: int| 0 <= i < payout_place(list, payout) implies (
        #[trigger] list[i]).created_at >= payout.created_at by {
            assert(front[i].created_at >= payout.created_at);
        }
    } else if list.len() > 0 {
        assert forall|i: int| 0 <= i < list.len() implies (#[trigger] list[i]).created_at
            >= payout.created_at by {
            if i < list.len() - 1 {
                assert(list[i].created_at >= list[list.len() - 1].created_at);
            }
        }
    }
}

/// All payouts are listed with the newest first.
pub proof fn law_the_newest_payouts_come_first(rows: Rows<PayoutState>, i: int, j: int)
    requires
        0 <= i < j < newest_first(rows).len(),
    ensures
        newest_first(rows)[i].created_at >= newest_first(rows)[j].created_at,
    decreases rows.len(),
{
    let front = newest_first(rows.drop_last());
    let payout = rows.last().1;
    assert forall|a: int, b: int| 0 <= a < b < front.len() implies (#[trigger] front[a]).created_at
        >= (#[trigger] front[b]).created_at by {
        law_the_newest_payouts_come_first(rows.drop_last(), a, b);
    }
    lemma_place(front, payout);
    lemma_place_orders(front, payout);
    let at = payout_place(front, payout);
    let list = front.insert(at, payout);
    assert(newest_first(rows) == list);
    if i < at {
        assert(list[i] == front[i]);
    } else if i > at {
        assert(list[i] == front[i - 1]);
    }
    if j < at {
        assert(list[j] == front[j]);
    } else if j > at {
        assert(list[j] == front[j - 1]);
    }
}

/// A page has as many rows as were asked for, at most the most there may be, and the usual number
/// where none was asked for.
pub proof fn law_pages_are_bounded(asked: i64, usual: int, most: int)
    requires
        0 <= usual <= most,
    ensures
        asked <= 0 ==> page_size(asked, usual, most) == usual,
        0 < asked <= most ==> page_size(asked, usual, most) == asked,
        asked > most ==> page_size(asked, usual, most) == most,
{
}

} // verus!
