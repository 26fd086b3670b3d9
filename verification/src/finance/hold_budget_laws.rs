//! What holds of a project do to its budget, what repeated requests do, and what a reconciliation
//! counts.
use vstd::prelude::*;

use crate::finance::audit_laws::line_sum;
use crate::finance::hold_duty_laws::{
    can_fund, cap_total, is_hold_request, is_quoted, law_plans_that_pay_others_are_taken,
    pays_others,
};
use crate::finance::hold_laws::lemma_tally_tells_what_lines_pay;
use crate::finance::holds::{
    hold_created, hold_released, hold_settled, CreateHoldInput, HoldAnswer, HoldFacts,
    ReleaseHoldInput, SettleHoldInput,
};
use crate::finance::ids::beneficiaries_of;
use crate::finance::ledger::{lines_of, wallet_of, Books, HoldState, PayoutState, PoolState};
use crate::finance::market_laws::{
    amount_of, is_amount, law_budgets_count_what_was_spent, law_budgets_reserve_what_they_cover,
};
use crate::finance::pool_runs::{
    pool_debited, slice_released, slice_reserved, slice_settled, DebitPoolInput, ReleasePoolInput,
    ReservationAnswer, ReservePoolInput, SettlePoolInput,
};
use crate::finance::pools::{
    pool_closed, pool_opened, pool_refreshed, ClosePoolInput, OpenPoolInput, PoolAnswer,
    RefreshPoolInput,
};
use crate::finance::reconcile::{active_count, issue_limit, pending_count, readable};
use crate::finance::settlement::{caps_of, law_a_tally_adds_up, Rules};
use crate::json::Tree;
use crate::table::{law_lookup_after_store, lookup, Rows};

verus! {

broadcast use law_lookup_after_store;

// ---------------------------------------------------------------- budgets

/// A hold that is opened for a project reserves its whole amount of the project's budget, which
/// covers it, and of no other; a hold without a project touches no budget.
pub proof fn law_an_opened_hold_reserves_its_budget(
    books: Books,
    payer: Seq<char>,
    input: CreateHoldInput,
    facts: HoldFacts,
    now: i64,
    hold_id: Seq<char>,
    journal_id: Seq<char>,
    after: Books,
    answer: HoldAnswer,
    other: Seq<char>,
)
    requires
        hold_created(books, payer, input, facts, now, hold_id, journal_id) == Ok::<
            (Books, HoldAnswer),
            Seq<char>,
        >((after, answer)),
        answer.applied,
    ensures
        ({
            let project = answer.hold.project_id;
            let was = match lookup(books.budgets, project) {
                Some(state) => state,
                None => Tree::Object(Seq::empty()),
            };
            &&& lookup(books.quotes, input.quote_id@) matches Some(quote) && project
                == quote.text_or_empty("projectId"@)
            &&& project.len() == 0 ==> after.budgets == books.budgets
            &&& project.len() > 0 ==> facts.payer_in_project && facts.project is Some && (lookup(
                after.budgets,
                project,
            ) matches Some(is) && {
                let limit = amount_of(facts.project->0@, "budgetMinor"@);
                &&& is.whole("reservedMinor"@) == Some(
                    (amount_of(was, "reservedMinor"@) + input.max_amount) as i64,
                )
                &&& amount_of(is, "spentMinor"@) >= amount_of(was, "spentMinor"@)
                &&& limit > 0 ==> amount_of(is, "spentMinor"@) + amount_of(was, "reservedMinor"@)
                    + input.max_amount <= limit
            })
            &&& other != project ==> lookup(after.budgets, other) == lookup(books.budgets, other)
        }),
{
    let project = answer.hold.project_id;
    if project.len() > 0 {
        law_budgets_reserve_what_they_cover(
            books.budgets,
            project,
            match facts.project {
                Some(meta) => Some(meta@),
                None => None,
            },
            input.max_amount,
            now,
            other,
        );
    }
}

/// A hold that is settled for a project frees its whole amount of the project's budget and counts
/// what it cost as spent; one that is released frees its amount and counts nothing.
pub proof fn law_ended_holds_free_their_budget(
    books: Books,
    caller: Seq<char>,
    settle: SettleHoldInput,
    release: ReleaseHoldInput,
    now: i64,
    journal_id: Seq<char>,
    hold: HoldState,
    settled: Books,
    answer: HoldAnswer,
    released: Books,
    other_answer: HoldAnswer,
    other: Seq<char>,
)
    requires
        lookup(books.holds, settle.hold_id@) == Some(hold),
        release.hold_id@ == settle.hold_id@,
        0 < hold.max_amount <= i64::MAX,
        hold_settled(books, caller, settle, now, journal_id) == Ok::<
            (Books, HoldAnswer),
            Seq<char>,
        >((settled, answer)),
        answer.applied,
        hold_released(books, caller, release, now, journal_id) == Ok::<
            (Books, HoldAnswer),
            Seq<char>,
        >((released, other_answer)),
        other_answer.applied,
    ensures
        ({
            let project = hold.project_id;
            let cost = line_sum(lines_of(settle.lines@));
            &&& project.len() == 0 ==> settled.budgets == books.budgets && released.budgets
                == books.budgets
            &&& project.len() > 0 ==> (lookup(books.budgets, project) matches Some(was) && (lookup(
                settled.budgets,
                project,
            ) matches Some(a) && (lookup(released.budgets, project) matches Some(b) && {
                &&& a.whole("reservedMinor"@) == Some(
                    (amount_of(was, "reservedMinor"@) - hold.max_amount) as i64,
                )
                &&& a.whole("spentMinor"@) == Some((amount_of(was, "spentMinor"@) + cost) as i64)
                &&& b.whole("reservedMinor"@) == Some(
                    (amount_of(was, "reservedMinor"@) - hold.max_amount) as i64,
                )
                &&& b.whole("spentMinor"@) == Some(amount_of(was, "spentMinor"@) as i64)
            })))
            &&& other != project ==> lookup(settled.budgets, other) == lookup(books.budgets, other)
                && lookup(released.budgets, other) == lookup(books.budgets, other)
        }),
{
    let project = hold.project_id;
    let payer = settle.payer_user_id@;
    let lines = lines_of(settle.lines@);
    let caps = caps_of(hold.beneficiaries->0);
    law_a_tally_adds_up(lines, caps, payer, Rules::Hold);
    lemma_tally_tells_what_lines_pay(lines, caps, payer, Rules::Hold, payer);
    if project.len() > 0 {
        law_budgets_count_what_was_spent(
            books.budgets,
            project,
            hold.max_amount as i64,
            line_sum(lines) as i64,
            now,
            other,
        );
        law_budgets_count_what_was_spent(
            books.budgets,
            project,
            hold.max_amount as i64,
            0,
            now,
            other,
        );
    }
}

/// A first request for a hold of a project is granted where it would be without one, the payer
/// belongs to the project, and its budget reads well and covers the amount.
pub proof fn law_a_covered_project_request_opens_a_hold(
    books: Books,
    payer: Seq<char>,
    input: CreateHoldInput,
    facts: HoldFacts,
    now: i64,
    hold_id: Seq<char>,
    journal_id: Seq<char>,
    project: Seq<char>,
    meta: Tree,
)
    requires
        lookup(books.links, "FinanceHoldRequest::"@ + payer + "::"@ + input.idempotency_key@) is None,
        is_hold_request(input, now),
        is_quoted(books, payer, input, facts, now),
        lookup(books.quotes, input.quote_id@)->0.text("projectId"@) == Some(project),
        project.len() > 0,
        facts.project matches Some(json) && json@ == meta,
        pays_others(beneficiaries_of(input.beneficiaries@), payer, books.wallets),
        cap_total(beneficiaries_of(input.beneficiaries@)) == input.max_amount,
        can_fund(wallet_of(books.wallets, payer), input.max_amount as int),
        lookup(books.budgets, project) is None,
        is_amount(meta, "budgetMinor"@),
        is_amount(meta, "spentMinor"@),
        amount_of(meta, "spentMinor"@) + input.max_amount <= i64::MAX,
        amount_of(meta, "budgetMinor"@) == 0 || amount_of(meta, "spentMinor"@) + input.max_amount
            <= amount_of(meta, "budgetMinor"@),
    ensures
        hold_created(books, payer, input, facts, now, hold_id, journal_id) matches Ok((_, answer))
            && answer.applied && answer.hold.project_id == project,
{
    law_plans_that_pay_others_are_taken(
        beneficiaries_of(input.beneficiaries@),
        payer,
        books.wallets,
    );
    law_budgets_reserve_what_they_cover(
        books.budgets,
        project,
        Some(meta),
        input.max_amount,
        now,
        project,
    );
}

// ---------------------------------------------------------------- repeated requests

/// A request on a pool that was applied before changes nothing and is answered with the pool as it
/// is, while it is asked as it was.
pub proof fn law_repeated_pool_requests_change_nothing(
    books: Books,
    user: Seq<char>,
    open: OpenPoolInput,
    refresh: RefreshPoolInput,
    close: ClosePoolInput,
    now: i64,
    pool_id: Seq<char>,
    journal_id: Seq<char>,
    pool: PoolState,
)
    requires
        pool_id.len() > 0,
        lookup(books.pools, pool_id) == Some(pool),
        refresh.pool_id@ == pool_id,
        close.pool_id@ == pool_id,
    ensures
        lookup(books.links, "FinancePoolOpen::"@ + user + "::"@ + open.idempotency_key@) == Some(
            pool_id,
        ) ==> (pool_opened(books, user, open, now, Seq::empty(), journal_id) matches Ok(r) ==> r == (
            books,
            PoolAnswer::Unchanged { pool },
        )),
        lookup(books.links, "FinancePoolRefresh::"@ + user + "::"@ + refresh.refresh_id@) == Some(
            pool_id,
        ) ==> (pool_refreshed(books, user, refresh, now, journal_id) matches Ok(r) ==> r == (
            books,
            PoolAnswer::Unchanged { pool },
        )),
        pool.status == "closed"@ ==> (pool_closed(books, user, close, now, journal_id) matches Ok(r)
            ==> r == (books, PoolAnswer::Unchanged { pool }) && (lookup(
            books.links,
            "FinancePoolClose::"@ + pool_id,
        ) == Some(close.close_id@) || close.close_id@.len() == 0)),
        pool.status == "closed"@ && lookup(books.links, "FinancePoolClose::"@ + pool_id) == Some(
            close.close_id@,
        ) && crate::finance::ids::is_finance_id(pool_id) && crate::finance::ids::is_finance_id(
            close.close_id@,
        ) && (user == pool.payer_user_id || user == pool.settlement_authority) ==> pool_closed(
            books,
            user,
            close,
            now,
            journal_id,
        ) is Ok,
{
}

/// A run that reserved a slice, was settled, released or charged before is not again: nothing
/// changes.
pub proof fn law_repeated_run_requests_change_nothing(
    books: Books,
    authority: Seq<char>,
    reserve: ReservePoolInput,
    settle: SettlePoolInput,
    release: ReleasePoolInput,
    debit: DebitPoolInput,
    now: i64,
    journal_id: Seq<char>,
    run: crate::finance::ledger::ReservationState,
    mark: Seq<char>,
)
    requires
        mark.len() > 0,
    ensures
        lookup(books.reservations, reserve.run_id@) == Some(run) ==> (slice_reserved(
            books,
            authority,
            reserve,
            now,
            journal_id,
        ) matches Ok(r) ==> r == (books, ReservationAnswer::Unchanged { reservation: run })
            && run.pool_id == reserve.pool_id@),
        lookup(
            books.links,
            "FinancePoolSettlement::"@ + authority + "::"@ + settle.settlement_id@,
        ) == Some(mark) ==> (slice_settled(books, authority, settle, now, journal_id) matches Ok(
            (after, answer),
        ) ==> after == books && answer is Unchanged),
        lookup(books.reservations, release.run_id@) == Some(run) && run.status == "released"@ ==> (
        slice_released(books, authority, release, now, journal_id) matches Ok((after, answer))
            ==> after == books && run.release_id == release.release_id@ && answer is Unchanged),
        lookup(books.links, "FinancePoolDebit::"@ + authority + "::"@ + debit.debit_id@) == Some(
            mark,
        ) ==> (pool_debited(books, authority, debit, now, journal_id) matches Ok((after, answer))
            ==> after == books && answer is Unchanged),
{
    reveal_strlit("released");
    reveal_strlit("reserved");
    assert("released"@[2] == 'l' && "reserved"@[2] == 's');
}

// ---------------------------------------------------------------- what a reconciliation counts

/// A reconciliation counts the records that can be read, the active holds among them, and the
/// pending payouts, each once.
pub proof fn law_a_reconciliation_counts_each_record_once(
    holds: Rows<Option<HoldState>>,
    hold: (Seq<char>, Option<HoldState>),
    payouts: Rows<Option<PayoutState>>,
    payout: (Seq<char>, Option<PayoutState>),
)
    ensures
        ({
            let active = hold.1 matches Some(h) && h.payer_user_id.len() > 0 && h.max_amount > 0 && (
            h.status == "open"@ || h.status == "running"@);
            let pending = payout.1 matches Some(p) && p.status == "pending"@;
            &&& readable(holds.push(hold)) == readable(holds) + if hold.1 is Some {
                1int
            } else {
                0
            }
            &&& readable(payouts.push(payout)) == readable(payouts) + if payout.1 is Some {
                1int
            } else {
                0
            }
            &&& active_count(holds.push(hold)) == active_count(holds) + if active {
                1int
            } else {
                0
            }
            &&& pending_count(payouts.push(payout)) == pending_count(payouts) + if pending {
                1int
            } else {
                0
            }
            &&& active_count(Seq::empty()) == 0 && pending_count(Seq::empty()) == 0
        }),
{
    assert(holds.push(hold).drop_last() =~= holds);
    assert(payouts.push(payout).drop_last() =~= payouts);
}

/// A report holds as many findings as were asked for, at most a thousand, and a hundred where no
/// number was asked for.
pub proof fn law_a_report_holds_at_most_a_thousand_findings(asked: i64)
    ensures
        asked <= 0 ==> issue_limit(asked) == 100,
        0 < asked <= 1000 ==> issue_limit(asked) == asked,
        asked > 1000 ==> issue_limit(asked) == 1000,
{
}

} // verus!
