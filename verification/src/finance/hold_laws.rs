//! What opening, starting, settling and releasing a hold does to every wallet and to the record,
//! told by amounts alone.
use vstd::prelude::*;

use crate::finance::audit_laws::line_sum;
use crate::finance::earning_laws::paid_to;
use crate::finance::holds::{
    charged, hold_created, hold_insufficient, hold_released, hold_settled, hold_started,
    CreateHoldInput, HoldAnswer, HoldFacts, ReleaseHoldInput, SettleHoldInput, StartHoldInput,
};
use crate::finance::ledger::{lines_of, wallet_of, Books, HoldState, Line, Wallet};
use crate::finance::moves::set_aside;
use crate::finance::settlement::{
    all_credited, amount_in, caps_of, law_a_tally_adds_up, lemma_rows_positive, tally_of, Rules,
};
use crate::table::{
    distinct, law_lookup_after_store, lemma_lookup_push, lemma_row_from, lookup, row_from, stored,
    Rows,
};

verus! {

broadcast use law_lookup_after_store;

// ---------------------------------------------------------------- credits

/// What a wallet is after it earned an amount, as far as its figures tell: debt is paid first,
/// and what is left of the amount is available and may be withdrawn.
pub open spec fn earns(was: Wallet, is: Wallet, amount: int) -> bool {
    let paid = if was.debt <= amount {
        was.debt as int
    } else {
        amount
    };
    &&& is.earned == was.earned + amount
    &&& is.debt == was.debt - paid
    &&& is.withdrawable == was.withdrawable + amount - paid
    &&& is.held == was.held
    &&& is.payout_held == was.payout_held
    &&& is.spent == was.spent
    &&& was.balance matches Some(before) ==> is.balance matches Some(later) && later == before
        + amount - paid
}

/// The amount under the key of one more row is that row's, and every other amount stays.
/// What the last of distinct rows is to a key.
pub proof fn lemma_amount_of_last(rows: Rows<i64>, key: Seq<char>)
    requires
        rows.len() > 0,
        distinct(rows),
    ensures
        distinct(rows.drop_last()),
        amount_in(rows, key) == if key == rows.last().0 {
            rows.last().1
        } else {
            amount_in(rows.drop_last(), key)
        },
        key == rows.last().0 ==> lookup(rows.drop_last(), key) is None,
{
    let front = rows.drop_last();
    assert(rows =~= front.push(rows.last()));
    assert forall|i: int, j: int| 0 <= i < j < front.len() implies #[trigger] front[i].0
        != #[trigger] front[j].0 by {
        assert(rows[i].0 != rows[j].0);
    }
    lemma_lookup_push(front, rows.last(), key);
    lemma_row_from(front, key, 0);
    if key == rows.last().0 {
        match row_from(front, key, 0) {
            Some(i) => {
                assert(rows[i].0 != rows[rows.len() - 1].0);
            },
            None => {},
        }
    }
}

/// Credits give each user what stands under their name, and leave everyone else as they were.
pub proof fn lemma_each_earns_their_amount(
    wallets: Rows<Wallet>,
    users: Rows<i64>,
    missing: Seq<char>,
    after: Rows<Wallet>,
    user: Seq<char>,
)
    requires
        all_credited(wallets, users, missing) == Ok::<Rows<Wallet>, Seq<char>>(after),
        distinct(users),
        forall|i: int| 0 <= i < users.len() ==> (#[trigger] users[i]).1 > 0,
    ensures
        lookup(users, user) is None ==> wallet_of(after, user) == wallet_of(wallets, user),
        lookup(users, user) is Some ==> wallet_of(wallets, user).balance is Some && earns(
            wallet_of(wallets, user),
            wallet_of(after, user),
            amount_in(users, user) as int,
        ),
    decreases users.len(),
{
    if users.len() > 0 {
        let front = users.drop_last();
        assert(users.last() == users[users.len() - 1]);
        assert forall|i: int| 0 <= i < front.len() implies (#[trigger] front[i]).1 > 0 by {
            assert(front[i] == users[i]);
        }
        let before = all_credited(wallets, front, missing)->Ok_0;
        lemma_amount_of_last(users, user);
        assert(users =~= front.push(users.last()));
        lemma_lookup_push(front, users.last(), user);
        lemma_each_earns_their_amount(wallets, front, missing, before, user);
    }
}

/// A tally adds up what lines pay: in all, and to each user.
pub proof fn lemma_tally_tells_what_lines_pay(
    lines: Seq<Line>,
    caps: Rows<i64>,
    payer: Seq<char>,
    rules: Rules,
    user: Seq<char>,
)
    requires
        tally_of(lines, caps, payer, rules) is Ok,
    ensures
        tally_of(lines, caps, payer, rules)->Ok_0.sum == line_sum(lines),
        amount_in(tally_of(lines, caps, payer, rules)->Ok_0.users, user) == paid_to(lines, user),
        lookup(tally_of(lines, caps, payer, rules)->Ok_0.users, user) is Some == (paid_to(
            lines,
            user,
        ) > 0),
        0 <= paid_to(lines, user) <= line_sum(lines),
    decreases lines.len(),
{
    if lines.len() > 0 {
        let front = lines.drop_last();
        lemma_tally_tells_what_lines_pay(front, caps, payer, rules, user);
        law_a_tally_adds_up(front, caps, payer, rules);
        let before = tally_of(front, caps, payer, rules)->Ok_0;
        lemma_tally_tells_what_lines_pay(front, caps, payer, rules, lines.last().user_id);
    }
}

// ---------------------------------------------------------------- opening

/// A hold that is opened takes its amount out of the payer's balance and holds it. Of what may be
/// withdrawn it takes only what the other funds do not cover. Nobody else's wallet changes, and
/// the record says exactly what was asked for and set aside.
pub proof fn law_an_opened_hold_sets_its_amount_aside(
    books: Books,
    payer: Seq<char>,
    input: CreateHoldInput,
    facts: HoldFacts,
    now: i64,
    hold_id: Seq<char>,
    journal_id: Seq<char>,
    after: Books,
    answer: HoldAnswer,
)
    requires
        hold_created(books, payer, input, facts, now, hold_id, journal_id) == Ok::<
            (Books, HoldAnswer),
            Seq<char>,
        >((after, answer)),
        answer.applied,
    ensures
        ({
            let was = wallet_of(books.wallets, payer);
            let is = wallet_of(after.wallets, payer);
            let other_funds = was.balance->0 - was.withdrawable;
            let part = if input.max_amount <= other_funds {
                0
            } else {
                input.max_amount - other_funds
            };
            let hold = answer.hold;
            &&& was.balance is Some
            &&& was.debt == 0
            &&& 0 < input.max_amount <= was.balance->0
            &&& is.balance matches Some(left) && left == was.balance->0 - input.max_amount
            &&& is.held == was.held + input.max_amount
            &&& is.withdrawable == was.withdrawable - part
            &&& is.debt == was.debt && is.payout_held == was.payout_held
            &&& is.earned == was.earned && is.spent == was.spent
            &&& forall|user: Seq<char>|
                user != payer ==> #[trigger] wallet_of(after.wallets, user) == wallet_of(
                    books.wallets,
                    user,
                )
            &&& lookup(after.holds, hold_id) == Some(hold)
            &&& forall|id: Seq<char>|
                id != hold_id ==> #[trigger] lookup(after.holds, id) == lookup(books.holds, id)
            &&& hold.payer_user_id == payer
            &&& hold.quote_id == input.quote_id@
            &&& hold.pricing_version == input.pricing_version@
            &&& hold.max_amount == input.max_amount
            &&& hold.remaining_amount == input.max_amount
            &&& hold.withdrawable_amount == part
            &&& hold.meter_program_id == input.meter_program_id@
            &&& hold.settlement_authority == input.settlement_authority@
            &&& hold.expires_at == input.expires_at
            &&& hold.expires_at > now
            &&& hold.context_hash == input.context_hash@
            &&& hold.beneficiaries matches Some(plan) && plan.len() == input.beneficiaries@.len()
                && forall|i: int|
                0 <= i < plan.len() ==> (#[trigger] plan[i]).user_id
                    == input.beneficiaries@[i].user_id@ && plan[i].role
                    == input.beneficiaries@[i].role@ && plan[i].max_amount
                    == input.beneficiaries@[i].max_amount
            &&& hold.status == "open"@
            &&& hold.created_at == now
            &&& hold.actual_amount == 0 && hold.refunded_amount == 0
            &&& hold.run_id.len() == 0 && hold.settlement_id.len() == 0
            &&& hold.settlement_lines.len() == 0
            &&& after.pools == books.pools && after.reservations == books.reservations
            &&& after.live_debits == books.live_debits && after.payouts == books.payouts
            &&& after.quotes == books.quotes && after.locks == books.locks
        }),
{
    let w = wallet_of(books.wallets, payer);
    let (next, part) = set_aside(w, input.max_amount as int, hold_insufficient())->Ok_0;
    assert(wallet_of(after.wallets, payer) == next);
}

// ---------------------------------------------------------------- starting

/// A hold that is started is bound to its run and changes in nothing else; no money moves.
pub proof fn law_a_started_hold_is_bound_to_its_run(
    books: Books,
    authority: Seq<char>,
    input: StartHoldInput,
    now: i64,
    journal_id: Seq<char>,
    after: Books,
    answer: HoldAnswer,
)
    requires
        hold_started(books, authority, input, now, journal_id) == Ok::<
            (Books, HoldAnswer),
            Seq<char>,
        >((after, answer)),
        answer.applied,
    ensures
        lookup(books.holds, input.hold_id@) matches Some(hold) && {
            &&& hold.status == "open"@
            &&& hold.settlement_authority == authority
            &&& hold.payer_user_id == input.payer_user_id@
            &&& hold.quote_id == input.quote_id@
            &&& now <= hold.expires_at
            &&& answer.hold.status == "running"@
            &&& answer.hold.run_id == input.run_id@
            &&& answer.hold.started_at == now
            &&& answer.hold == (HoldState {
                status: answer.hold.status,
                run_id: answer.hold.run_id,
                started_at: answer.hold.started_at,
                ..hold
            })
        },
        lookup(after.holds, input.hold_id@) == Some(answer.hold),
        forall|id: Seq<char>|
            id != input.hold_id@ ==> #[trigger] lookup(after.holds, id) == lookup(books.holds, id),
        after == (Books {
            holds: after.holds,
            links: after.links,
            journal: after.journal,
            ..books
        }),
{
}

// ---------------------------------------------------------------- settling

/// A hold that is settled pays every beneficiary what the lines say and gives the payer the rest
/// back. Of the withdrawable funds that the hold took, as many come back as the rest covers:
/// where M was held, W of it withdrawable, and S is paid, that is the smaller of M - S and W.
/// The record says so, and nobody else's wallet changes.
pub proof fn law_settling_pays_the_lines_and_returns_the_rest(
    books: Books,
    authority: Seq<char>,
    input: SettleHoldInput,
    now: i64,
    journal_id: Seq<char>,
    after: Books,
    answer: HoldAnswer,
    user: Seq<char>,
)
    requires
        hold_settled(books, authority, input, now, journal_id) == Ok::<
            (Books, HoldAnswer),
            Seq<char>,
        >((after, answer)),
        answer.applied,
    ensures
        lookup(books.holds, input.hold_id@) matches Some(hold) && {
            let payer = input.payer_user_id@;
            let lines = lines_of(input.lines@);
            let rest = hold.max_amount - line_sum(lines);
            let back = if rest <= hold.withdrawable_amount {
                rest
            } else {
                hold.withdrawable_amount
            };
            let was = wallet_of(books.wallets, user);
            let is = wallet_of(after.wallets, user);
            let earned = paid_to(lines, user);
            let repaid = if was.debt <= earned {
                was.debt as int
            } else {
                earned
            };
            let settled = answer.hold;
            &&& hold.payer_user_id == payer
            &&& hold.status == "running"@
            &&& hold.settlement_authority == authority
            &&& hold.run_id == input.settlement_id@
            &&& now <= hold.expires_at
            &&& rest >= 0
            // Who is paid nothing and pays nothing is left alone.
            &&& user != payer && earned == 0 ==> is == was
            // A beneficiary earns what the lines say, debt first.
            &&& user != payer && earned > 0 ==> earns(was, is, earned)
            // The payer gets the rest back, and with it its withdrawable part.
            &&& user == payer && earned == 0 ==> {
                &&& is.balance matches Some(later) && later == was.balance->0 + rest
                &&& is.withdrawable == was.withdrawable + back
                &&& is.debt == was.debt
                &&& is.earned == was.earned
            }
            &&& user == payer && earned > 0 ==> {
                &&& is.balance matches Some(later) && later == was.balance->0 + earned - repaid
                    + rest
                &&& is.withdrawable == was.withdrawable + earned - repaid + back
                &&& is.debt == was.debt - repaid
                &&& is.earned == was.earned + earned
            }
            &&& user == payer ==> {
                &&& was.balance is Some
                &&& is.held == was.held - hold.max_amount
                &&& is.spent == was.spent + line_sum(lines)
                &&& is.payout_held == was.payout_held
            }
            &&& settled.status == "settled"@
            &&& settled.remaining_amount == 0
            &&& settled.actual_amount == line_sum(lines)
            &&& settled.refunded_amount == rest
            &&& settled.withdrawable_refunded_amount == back
            &&& settled.withdrawable_spent_amount == hold.withdrawable_amount - back
            &&& settled.settlement_id == input.settlement_id@
            &&& settled.usage_hash == input.usage_hash@
            &&& settled.settlement_lines == lines
            &&& settled.finalized_at == now
            &&& settled == (HoldState {
                payer_user_id: hold.payer_user_id,
                quote_id: hold.quote_id,
                pricing_version: hold.pricing_version,
                max_amount: hold.max_amount,
                withdrawable_amount: hold.withdrawable_amount,
                meter_program_id: hold.meter_program_id,
                settlement_authority: hold.settlement_authority,
                expires_at: hold.expires_at,
                project_id: hold.project_id,
                context_hash: hold.context_hash,
                beneficiary_plan_hash: hold.beneficiary_plan_hash,
                beneficiaries: hold.beneficiaries,
                request_hash: hold.request_hash,
                created_at: hold.created_at,
                run_id: hold.run_id,
                started_at: hold.started_at,
                release_id: hold.release_id,
                release_reason: hold.release_reason,
                ..settled
            })
        },
        lookup(after.holds, input.hold_id@) == Some(answer.hold),
        forall|id: Seq<char>|
            id != input.hold_id@ ==> #[trigger] lookup(after.holds, id) == lookup(books.holds, id),
        after == (Books {
            wallets: after.wallets,
            holds: after.holds,
            budgets: after.budgets,
            links: after.links,
            journal: after.journal,
            ..books
        }),
{
    let payer = input.payer_user_id@;
    let hold = lookup(books.holds, input.hold_id@)->0;
    let lines = lines_of(input.lines@);
    let caps = caps_of(hold.beneficiaries->0);
    let tally = tally_of(lines, caps, payer, Rules::Hold)->Ok_0;
    law_a_tally_adds_up(lines, caps, payer, Rules::Hold);
    lemma_rows_positive(tally.users, tally.sum);
    lemma_tally_tells_what_lines_pay(lines, caps, payer, Rules::Hold, user);
    lemma_tally_tells_what_lines_pay(lines, caps, payer, Rules::Hold, payer);
    let spender = charged(wallet_of(books.wallets, payer), tally.sum)->Ok_0;
    let start = stored(books.wallets, payer, spender);
    let paid = all_credited(start, tally.users, Rules::Hold.missing())->Ok_0;
    lemma_each_earns_their_amount(start, tally.users, Rules::Hold.missing(), paid, user);
    lemma_each_earns_their_amount(start, tally.users, Rules::Hold.missing(), paid, payer);
}

/// A hold that is settled for nothing leaves the payer with exactly what there was before the
/// hold, to withdraw and to use; so the hold took nothing but time.
pub proof fn law_settling_for_nothing_undoes_the_hold(
    books: Books,
    payer: Seq<char>,
    create: CreateHoldInput,
    facts: HoldFacts,
    created: i64,
    hold_id: Seq<char>,
    created_journal: Seq<char>,
    opened: Books,
    answer: HoldAnswer,
    begun: Books,
    authority: Seq<char>,
    start: StartHoldInput,
    started: i64,
    started_journal: Seq<char>,
    running: HoldAnswer,
    settle: SettleHoldInput,
    settled: i64,
    settled_journal: Seq<char>,
    after: Books,
    done: HoldAnswer,
)
    requires
        hold_created(books, payer, create, facts, created, hold_id, created_journal) == Ok::<
            (Books, HoldAnswer),
            Seq<char>,
        >((opened, answer)),
        answer.applied,
        start.hold_id@ == hold_id,
        hold_started(opened, authority, start, started, started_journal) == Ok::<
            (Books, HoldAnswer),
            Seq<char>,
        >((begun, running)),
        running.applied,
        settle.hold_id@ == hold_id,
        settle.lines@.len() == 0,
        hold_settled(begun, authority, settle, settled, settled_journal) == Ok::<
            (Books, HoldAnswer),
            Seq<char>,
        >((after, done)),
        done.applied,
    ensures
        forall|user: Seq<char>| #[trigger]
            wallet_of(after.wallets, user) == wallet_of(books.wallets, user),
{
    law_an_opened_hold_sets_its_amount_aside(
        books,
        payer,
        create,
        facts,
        created,
        hold_id,
        created_journal,
        opened,
        answer,
    );
    law_a_started_hold_is_bound_to_its_run(
        opened,
        authority,
        start,
        started,
        started_journal,
        begun,
        running,
    );
    assert(lines_of(settle.lines@) =~= Seq::empty());
    assert forall|user: Seq<char>| #[trigger]
        wallet_of(after.wallets, user) == wallet_of(books.wallets, user) by {
        law_settling_pays_the_lines_and_returns_the_rest(
            begun,
            authority,
            settle,
            settled,
            settled_journal,
            after,
            done,
            user,
        );
        assert(wallet_of(begun.wallets, user) == wallet_of(opened.wallets, user));
        if user != payer {
            assert(wallet_of(opened.wallets, user) == wallet_of(books.wallets, user));
        }
    }
}

// ---------------------------------------------------------------- releasing

/// A hold that is released gives the payer back everything that it holds, with all that was
/// withdrawable of it; it is expired where its time is over, and released otherwise. Nobody
/// else's wallet changes.
pub proof fn law_a_released_hold_gives_everything_back(
    books: Books,
    caller: Seq<char>,
    input: ReleaseHoldInput,
    now: i64,
    journal_id: Seq<char>,
    after: Books,
    answer: HoldAnswer,
)
    requires
        hold_released(books, caller, input, now, journal_id) == Ok::<
            (Books, HoldAnswer),
            Seq<char>,
        >((after, answer)),
        answer.applied,
    ensures
        lookup(books.holds, input.hold_id@) matches Some(hold) && {
            let payer = input.payer_user_id@;
            let was = wallet_of(books.wallets, payer);
            let is = wallet_of(after.wallets, payer);
            let released = answer.hold;
            &&& hold.payer_user_id == payer
            &&& hold.status == "open"@ || hold.status == "running"@
            &&& caller == hold.settlement_authority || caller == payer
            &&& caller != hold.settlement_authority && now < hold.expires_at ==> hold.status
                == "open"@
            &&& was.balance is Some
            &&& is.balance matches Some(later) && later == was.balance->0 + hold.max_amount
            &&& is.withdrawable == was.withdrawable + hold.withdrawable_amount
            &&& is.held == was.held - hold.max_amount
            &&& is.debt == was.debt && is.payout_held == was.payout_held
            &&& is.earned == was.earned && is.spent == was.spent
            &&& forall|user: Seq<char>|
                user != payer ==> #[trigger] wallet_of(after.wallets, user) == wallet_of(
                    books.wallets,
                    user,
                )
            &&& released.status == if now >= hold.expires_at {
                "expired"@
            } else {
                "released"@
            }
            &&& released.remaining_amount == 0
            &&& released.refunded_amount == hold.max_amount
            &&& released.withdrawable_refunded_amount == hold.withdrawable_amount
            &&& released.release_id == input.release_id@
            &&& released.release_reason == input.reason@
            &&& released.finalized_at == now
            &&& released == (HoldState {
                status: released.status,
                remaining_amount: released.remaining_amount,
                refunded_amount: released.refunded_amount,
                withdrawable_refunded_amount: released.withdrawable_refunded_amount,
                release_id: released.release_id,
                release_reason: released.release_reason,
                finalized_at: released.finalized_at,
                ..hold
            })
        },
        lookup(after.holds, input.hold_id@) == Some(answer.hold),
        forall|id: Seq<char>|
            id != input.hold_id@ ==> #[trigger] lookup(after.holds, id) == lookup(books.holds, id),
        after == (Books {
            wallets: after.wallets,
            holds: after.holds,
            budgets: after.budgets,
            links: after.links,
            journal: after.journal,
            ..books
        }),
{
}

} // verus!
