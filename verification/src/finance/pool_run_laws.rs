//! What settling a run and charging it while it goes on do to a pool and to everyone's funds.
use vstd::prelude::*;

use crate::finance::audit_laws::line_sum;
use crate::finance::earning_laws::paid_to;
use crate::finance::hold_laws::{
    earns, lemma_each_earns_their_amount, lemma_tally_tells_what_lines_pay,
};
use crate::finance::ids::{is_finance_hash, is_finance_id};
use crate::finance::journal::figures;
use crate::finance::ledger::{lines_of, wallet_of, Books, Line, PoolState, ReservationState, Wallet};
use crate::finance::pool_laws::lemma_payload_words;
use crate::finance::pool_runs::{
    more_credits, paid_from_pool, pool_debited, slice_settled, DebitAnswer, DebitPoolInput,
    SettlePoolInput, SliceAnswer,
};
use crate::finance::settlement::{
    all_credited, amount_in, cap_key, caps_of, law_a_tally_adds_up, lemma_rows_positive, quote_plan,
    tally_of, Rules,
};
use crate::finance::settlement_laws::{
    can_earn, caps_fit, is_line, law_lines_within_their_plan_are_taken,
    law_only_lines_within_their_plan_are_taken, lemma_lines_can_be_paid, lemma_roles_tallied, names,
    role_sum, within_caps,
};
use crate::table::{law_lookup_after_store, lookup, Rows};

verus! {

broadcast use law_lookup_after_store;

/// Whether lines were paid out of what a payer held: the payer holds as much less and spent as much
/// more, those whom the lines pay earned it, and nobody else's wallet changed.
pub open spec fn pays_from_held(
    was: Rows<Wallet>,
    is: Rows<Wallet>,
    payer: Seq<char>,
    lines: Seq<Line>,
    user: Seq<char>,
) -> bool {
    let a = wallet_of(was, user);
    let b = wallet_of(is, user);
    if user == payer {
        b == (Wallet {
            held: (a.held - line_sum(lines)) as i64,
            spent: (a.spent + line_sum(lines)) as i64,
            ..a
        }) && (line_sum(lines) > 0 ==> line_sum(lines) <= a.held)
    } else if paid_to(lines, user) > 0 {
        earns(a, b, paid_to(lines, user))
    } else {
        b == a
    }
}

proof fn lemma_paid_from_pool(
    wallets: Rows<Wallet>,
    payer: Seq<char>,
    lines: Seq<Line>,
    caps: Rows<i64>,
    rules: Rules,
    after: Rows<Wallet>,
    user: Seq<char>,
)
    requires
        !(rules is Hold),
        tally_of(lines, caps, payer, rules) is Ok,
        paid_from_pool(
            wallets,
            payer,
            tally_of(lines, caps, payer, rules)->Ok_0.users,
            tally_of(lines, caps, payer, rules)->Ok_0.sum,
            rules.missing(),
        ) == Ok::<Rows<Wallet>, Seq<char>>(after),
    ensures
        pays_from_held(wallets, after, payer, lines, user),
        paid_to(lines, payer) == 0,
{
    let tally = tally_of(lines, caps, payer, rules)->Ok_0;
    law_a_tally_adds_up(lines, caps, payer, rules);
    lemma_rows_positive(tally.users, tally.sum);
    lemma_tally_tells_what_lines_pay(lines, caps, payer, rules, user);
    lemma_tally_tells_what_lines_pay(lines, caps, payer, rules, payer);
    lemma_payer_unpaid(lines, caps, payer, rules);
    let paid = all_credited(wallets, tally.users, rules.missing())->Ok_0;
    lemma_each_earns_their_amount(wallets, tally.users, rules.missing(), paid, user);
    lemma_each_earns_their_amount(wallets, tally.users, rules.missing(), paid, payer);
}

proof fn lemma_payer_unpaid(lines: Seq<Line>, caps: Rows<i64>, payer: Seq<char>, rules: Rules)
    requires
        !(rules is Hold),
        tally_of(lines, caps, payer, rules) is Ok,
    ensures
        paid_to(lines, payer) == 0,
    decreases lines.len(),
{
    if lines.len() > 0 {
        lemma_payer_unpaid(lines.drop_last(), caps, payer, rules);
    }
}

// ---------------------------------------------------------------- settling

/// A settled run pays its lines out of the payer's held funds, gives the rest of its slice back to
/// the pool, and is recorded with what it cost; no other pool, run or record changes.
#[verifier::rlimit(30)]
pub proof fn law_a_settled_run_pays_its_lines(
    books: Books,
    authority: Seq<char>,
    input: SettlePoolInput,
    now: i64,
    journal_id: Seq<char>,
    after: Books,
    actual: int,
    refunded: int,
    entry_id: Seq<char>,
    user: Seq<char>,
)
    requires
        slice_settled(books, authority, input, now, journal_id) == Ok::<
            (Books, SliceAnswer),
            Seq<char>,
        >(
            (
                after,
                SliceAnswer::Settled {
                    actual_amount: actual,
                    refunded_to_pool: refunded,
                    journal_id: entry_id,
                },
            ),
        ),
    ensures
        entry_id == journal_id,
        actual == line_sum(lines_of(input.lines@)),
        pays_from_held(
            books.wallets,
            after.wallets,
            input.payer_user_id@,
            lines_of(input.lines@),
            user,
        ),
        lookup(books.reservations, input.run_id@) matches Some(run) && {
            &&& run.status == "reserved"@
            &&& run.pool_id == input.pool_id@
            &&& run.payer_user_id == input.payer_user_id@
            &&& run.quote_id == input.quote_id@
            &&& 0 <= actual <= run.amount
            &&& refunded == run.amount - actual
            &&& lookup(after.reservations, input.run_id@) == Some(
                ReservationState {
                    status: "settled"@,
                    settlement_id: input.settlement_id@,
                    actual_amount: actual,
                    usage_hash: input.usage_hash@,
                    settlement_lines: lines_of(input.lines@),
                    settled_at: now as int,
                    ..run
                },
            )
            &&& lookup(books.pools, input.pool_id@) matches Some(pool) && {
                &&& pool.settlement_authority == authority
                &&& pool.status == "open"@
                &&& lookup(after.pools, input.pool_id@) == Some(
                    PoolState {
                        remaining: pool.remaining + run.amount - actual,
                        reserved: pool.reserved - run.amount,
                        spent: pool.spent + actual,
                        updated_at: now as int,
                        ..pool
                    },
                )
            }
        },
        lookup(books.quotes, input.quote_id@) matches Some(quote) && quote.text("payerUserId"@)
            == Some(input.payer_user_id@),
        forall|id: Seq<char>|
            id != input.pool_id@ ==> #[trigger] lookup(after.pools, id) == lookup(books.pools, id),
        forall|id: Seq<char>|
            id != input.run_id@ ==> #[trigger] lookup(after.reservations, id) == lookup(
                books.reservations,
                id,
            ),
        after == (Books {
            wallets: after.wallets,
            pools: after.pools,
            reservations: after.reservations,
            links: after.links,
            journal: after.journal,
            ..books
        }),
        lookup(after.journal, journal_id) matches Some(entry) && {
            &&& entry.kind == "pool.settled"@
            &&& entry.hold_id == input.pool_id@
            &&& entry.payer_user_id == input.payer_user_id@
            &&& entry.created_at == now
            &&& entry.payload.text("runId"@) == Some(input.run_id@)
            &&& entry.payload.whole("actual"@) == Some(actual as i64)
            &&& entry.payload.whole("refundedToPool"@) == Some(refunded as i64)
        },
{
    let payer = input.payer_user_id@;
    let lines = lines_of(input.lines@);
    let quote = lookup(books.quotes, input.quote_id@)->0;
    let caps = caps_of(quote_plan(quote.items("beneficiaries"@)->0));
    lemma_paid_from_pool(books.wallets, payer, lines, caps, Rules::Reservation, after.wallets, user);
    lemma_tally_tells_what_lines_pay(lines, caps, payer, Rules::Reservation, user);
    lemma_payload_words();
    reveal_with_fuel(figures, 4);
    let two = seq![("actual"@, actual), ("refundedToPool"@, refunded)];
    assert(two.drop_last() =~= seq![("actual"@, actual)]);
    assert(two.drop_last().drop_last() =~= Seq::empty());
}

/// Whether a payer's wallet can pay an amount out of what it holds, and those whom lines pay can
/// earn it.
pub open spec fn can_pay(wallets: Rows<Wallet>, payer: Seq<char>, lines: Seq<Line>) -> bool {
    let w = wallet_of(wallets, payer);
    &&& line_sum(lines) <= w.held
    &&& 0 <= w.spent && w.spent + line_sum(lines) <= i64::MAX
    &&& forall|user: Seq<char>|
        #[trigger] paid_to(lines, user) > 0 ==> can_earn(
            wallet_of(wallets, user),
            paid_to(lines, user),
        )
}

proof fn lemma_pool_can_pay(
    wallets: Rows<Wallet>,
    payer: Seq<char>,
    lines: Seq<Line>,
    caps: Rows<i64>,
    rules: Rules,
)
    requires
        !(rules is Hold),
        tally_of(lines, caps, payer, rules) is Ok,
        can_pay(wallets, payer, lines),
    ensures
        paid_from_pool(
            wallets,
            payer,
            tally_of(lines, caps, payer, rules)->Ok_0.users,
            tally_of(lines, caps, payer, rules)->Ok_0.sum,
            rules.missing(),
        ) is Ok,
{
    let tally = tally_of(lines, caps, payer, rules)->Ok_0;
    law_a_tally_adds_up(lines, caps, payer, rules);
    lemma_rows_positive(tally.users, tally.sum);
    lemma_tally_tells_what_lines_pay(lines, caps, payer, rules, payer);
    lemma_payer_unpaid(lines, caps, payer, rules);
    lemma_lines_can_be_paid(wallets, lines, caps, payer, rules);
    let paid = all_credited(wallets, tally.users, rules.missing())->Ok_0;
    lemma_each_earns_their_amount(wallets, tally.users, rules.missing(), paid, payer);
}

/// A first settlement of a reserved run is taken where the pool's authority asks while the pool is
/// open, its lines stay within the quote's plan and the slice, and everyone can be paid.
pub proof fn law_lines_within_a_slice_are_settled(
    books: Books,
    authority: Seq<char>,
    input: SettlePoolInput,
    now: i64,
    journal_id: Seq<char>,
    run: ReservationState,
    pool: PoolState,
)
    requires
        lookup(
            books.links,
            "FinancePoolSettlement::"@ + authority + "::"@ + input.settlement_id@,
        ) is None,
        is_finance_id(input.pool_id@),
        is_finance_id(input.payer_user_id@),
        is_finance_id(input.quote_id@),
        is_finance_id(input.run_id@),
        is_finance_id(input.settlement_id@),
        is_finance_hash(input.usage_hash@),
        lookup(books.reservations, input.run_id@) == Some(run),
        run.status == "reserved"@,
        run.pool_id == input.pool_id@,
        run.payer_user_id == input.payer_user_id@,
        run.quote_id == input.quote_id@,
        lookup(books.pools, input.pool_id@) == Some(pool),
        pool.settlement_authority == authority,
        pool.status == "open"@,
        0 < run.amount <= pool.reserved <= i64::MAX,
        0 <= pool.remaining && pool.remaining + run.amount <= i64::MAX,
        0 <= pool.spent && pool.spent + run.amount <= i64::MAX,
        lookup(books.quotes, input.quote_id@) matches Some(quote) && quote.text("payerUserId"@)
            == Some(input.payer_user_id@) && (quote.items("beneficiaries"@) matches Some(rows) && {
            let plan = quote_plan(rows);
            let lines = lines_of(input.lines@);
            &&& forall|i: int|
                0 <= i < plan.len() ==> (#[trigger] plan[i]).user_id.len() > 0
                    && plan[i].role.len() > 0 && plan[i].max_amount > 0
            &&& forall|i: int|
                0 <= i < lines.len() ==> is_line(#[trigger] lines[i]) && names(
                    plan,
                    lines[i].user_id,
                    lines[i].role,
                ) && lines[i].user_id != input.payer_user_id@
            &&& within_caps(lines, plan)
        }),
        line_sum(lines_of(input.lines@)) <= run.amount,
        can_pay(books.wallets, input.payer_user_id@, lines_of(input.lines@)),
    ensures
        slice_settled(books, authority, input, now, journal_id) matches Ok((_, answer))
            && answer is Settled,
{
    let payer = input.payer_user_id@;
    let lines = lines_of(input.lines@);
    let quote = lookup(books.quotes, input.quote_id@)->0;
    let plan = quote_plan(quote.items("beneficiaries"@)->0);
    law_lines_within_their_plan_are_taken(lines, plan, payer, Rules::Reservation);
    law_a_tally_adds_up(lines, caps_of(plan), payer, Rules::Reservation);
    lemma_tally_tells_what_lines_pay(lines, caps_of(plan), payer, Rules::Reservation, payer);
    lemma_pool_can_pay(books.wallets, payer, lines, caps_of(plan), Rules::Reservation);
}

// ---------------------------------------------------------------- charging

proof fn lemma_more_credits(credits: Rows<i64>, roles: Rows<i64>, after: Rows<i64>, key: Seq<char>)
    requires
        crate::table::distinct(roles),
        forall|i: int| 0 <= i < roles.len() ==> 0 < (#[trigger] roles[i]).1,
        more_credits(credits, roles) == Ok::<Rows<i64>, Seq<char>>(after),
    ensures
        amount_in(after, key) == amount_in(credits, key) + amount_in(roles, key),
    decreases roles.len(),
{
    if roles.len() > 0 {
        let front = roles.drop_last();
        crate::finance::hold_laws::lemma_amount_of_last(roles, key);
        assert forall|i: int| 0 <= i < front.len() implies 0 < (#[trigger] front[i]).1 by {
            assert(front[i] == roles[i]);
        }
        assert(0 < roles[roles.len() - 1].1);
        let before = more_credits(credits, front)->Ok_0;
        lemma_more_credits(credits, front, before, key);
        lemma_more_credits(credits, front, before, roles.last().0);
    }
}

/// A charge pays its lines out of the payer's held funds and of what is left of the pool, and is
/// added to what the run was charged before, credit by credit; no other pool, run or record
/// changes.
#[verifier::rlimit(30)]
pub proof fn law_a_charge_pays_its_lines(
    books: Books,
    authority: Seq<char>,
    input: DebitPoolInput,
    now: i64,
    journal_id: Seq<char>,
    after: Books,
    charged: int,
    remaining: int,
    entry_id: Seq<char>,
    user: Seq<char>,
    role: Seq<char>,
)
    requires
        pool_debited(books, authority, input, now, journal_id) == Ok::<
            (Books, DebitAnswer),
            Seq<char>,
        >((after, DebitAnswer::Charged { charged, remaining, journal_id: entry_id })),
    ensures
        entry_id == journal_id,
        charged == line_sum(lines_of(input.lines@)),
        charged > 0,
        pays_from_held(
            books.wallets,
            after.wallets,
            input.payer_user_id@,
            lines_of(input.lines@),
            user,
        ),
        lookup(books.pools, input.pool_id@) matches Some(pool) && {
            &&& pool.settlement_authority == authority
            &&& pool.payer_user_id == input.payer_user_id@
            &&& pool.status == "open"@
            &&& now <= pool.expires_at
            &&& charged <= pool.remaining
            &&& remaining == pool.remaining - charged
            &&& lookup(after.pools, input.pool_id@) == Some(
                PoolState {
                    remaining,
                    spent: pool.spent + charged,
                    updated_at: now as int,
                    ..pool
                },
            )
        },
        lookup(after.live_debits, input.run_id@) matches Some(is) && {
            let was = lookup(books.live_debits, input.run_id@);
            &&& is.last_debit_id == input.debit_id@
            &&& is.last_usage_hash == input.usage_hash@
            &&& is.updated_at == now
            &&& was matches Some(was) ==> {
                &&& is.charged_total == was.charged_total + charged
                &&& is.pool_id == was.pool_id && is.payer_user_id == was.payer_user_id
                &&& is.quote_id == was.quote_id && is.created_at == was.created_at
            }
            &&& was is None ==> {
                &&& is.charged_total == charged
                &&& is.pool_id == input.pool_id@ && is.payer_user_id == input.payer_user_id@
                &&& is.quote_id == input.quote_id@ && is.created_at == now
            }
            &&& is_finance_id(user) && is_finance_id(role) ==> amount_in(
                is.credits,
                user + "|"@ + role,
            ) == (match was {
                Some(was) => amount_in(was.credits, user + "|"@ + role) as int,
                None => 0,
            }) + role_sum(lines_of(input.lines@), user, role)
        },
        forall|id: Seq<char>|
            id != input.pool_id@ ==> #[trigger] lookup(after.pools, id) == lookup(books.pools, id),
        forall|id: Seq<char>|
            id != input.run_id@ ==> #[trigger] lookup(after.live_debits, id) == lookup(
                books.live_debits,
                id,
            ),
        after == (Books {
            wallets: after.wallets,
            pools: after.pools,
            live_debits: after.live_debits,
            links: after.links,
            journal: after.journal,
            ..books
        }),
        lookup(after.journal, journal_id) matches Some(entry) && {
            &&& entry.kind == "pool.debited"@
            &&& entry.hold_id == input.pool_id@
            &&& entry.payer_user_id == input.payer_user_id@
            &&& entry.created_at == now
            &&& entry.payload.text("runId"@) == Some(input.run_id@)
            &&& entry.payload.whole("amount"@) == Some(charged as i64)
            &&& entry.payload.whole("remaining"@) == Some(remaining as i64)
        },
{
    let payer = input.payer_user_id@;
    let lines = lines_of(input.lines@);
    let quote = lookup(books.quotes, input.quote_id@)->0;
    let caps = caps_of(quote_plan(quote.items("beneficiaries"@)->0));
    let tally = tally_of(lines, caps, payer, Rules::Debit)->Ok_0;
    lemma_paid_from_pool(books.wallets, payer, lines, caps, Rules::Debit, after.wallets, user);
    lemma_tally_tells_what_lines_pay(lines, caps, payer, Rules::Debit, user);
    law_a_tally_adds_up(lines, caps, payer, Rules::Debit);
    let was = match lookup(books.live_debits, input.run_id@) {
        Some(was) => was.credits,
        None => Seq::empty(),
    };
    let is = lookup(after.live_debits, input.run_id@)->0;
    if is_finance_id(user) && is_finance_id(role) {
        lemma_roles_tallied(lines, caps, payer, Rules::Debit, user, role);
        lemma_rows_positive(tally.roles, tally.sum);
        lemma_more_credits(was, tally.roles, is.credits, cap_key(user, role));
    }
    lemma_payload_words();
    reveal_with_fuel(figures, 4);
    let two = seq![("amount"@, charged), ("remaining"@, remaining)];
    assert(two.drop_last() =~= seq![("amount"@, charged)]);
    assert(two.drop_last().drop_last() =~= Seq::empty());
}

/// A first charge of a run is taken where the pool's authority asks while the pool is open and not
/// past and its lines pay those whom the quote names. It is paid where as much is left in the pool
/// and everyone can be paid; where less is left, nothing changes and what is left is told.
pub proof fn law_charges_draw_on_what_is_left(
    books: Books,
    authority: Seq<char>,
    input: DebitPoolInput,
    now: i64,
    journal_id: Seq<char>,
    pool: PoolState,
)
    requires
        lookup(books.links, "FinancePoolDebit::"@ + authority + "::"@ + input.debit_id@) is None,
        is_finance_id(input.pool_id@),
        is_finance_id(input.payer_user_id@),
        is_finance_id(input.quote_id@),
        is_finance_id(input.run_id@),
        is_finance_id(input.debit_id@),
        is_finance_hash(input.usage_hash@),
        lookup(books.pools, input.pool_id@) == Some(pool),
        pool.settlement_authority == authority,
        pool.payer_user_id == input.payer_user_id@,
        pool.status == "open"@,
        0 < pool.expires_at,
        now <= pool.expires_at,
        pool.remaining <= i64::MAX,
        0 <= pool.spent && pool.spent + pool.remaining <= i64::MAX,
        lookup(books.quotes, input.quote_id@) matches Some(quote) && quote.text("payerUserId"@)
            == Some(input.payer_user_id@) && (quote.items("beneficiaries"@) matches Some(rows) && {
            let plan = quote_plan(rows);
            let lines = lines_of(input.lines@);
            &&& forall|i: int|
                0 <= i < plan.len() ==> (#[trigger] plan[i]).user_id.len() > 0
                    && plan[i].role.len() > 0
            &&& caps_fit(plan)
            &&& forall|i: int|
                0 <= i < lines.len() ==> is_line(#[trigger] lines[i]) && names(
                    plan,
                    lines[i].user_id,
                    lines[i].role,
                ) && lines[i].user_id != input.payer_user_id@
        }),
        0 < line_sum(lines_of(input.lines@)) <= i64::MAX,
        can_pay(books.wallets, input.payer_user_id@, lines_of(input.lines@)),
        lookup(books.live_debits, input.run_id@) is None,
    ensures
        line_sum(lines_of(input.lines@)) > pool.remaining ==> pool_debited(
            books,
            authority,
            input,
            now,
            journal_id,
        ) == Ok::<(Books, DebitAnswer), Seq<char>>(
            (books, DebitAnswer::Exhausted { remaining: pool.remaining }),
        ),
        line_sum(lines_of(input.lines@)) <= pool.remaining ==> (pool_debited(
            books,
            authority,
            input,
            now,
            journal_id,
        ) matches Ok((_, answer)) && answer is Charged),
{
    let payer = input.payer_user_id@;
    let lines = lines_of(input.lines@);
    let quote = lookup(books.quotes, input.quote_id@)->0;
    let plan = quote_plan(quote.items("beneficiaries"@)->0);
    law_lines_within_their_plan_are_taken(lines, plan, payer, Rules::Debit);
    law_a_tally_adds_up(lines, caps_of(plan), payer, Rules::Debit);
    lemma_tally_tells_what_lines_pay(lines, caps_of(plan), payer, Rules::Debit, payer);
    lemma_pool_can_pay(books.wallets, payer, lines, caps_of(plan), Rules::Debit);
    let tally = tally_of(lines, caps_of(plan), payer, Rules::Debit)->Ok_0;
    lemma_rows_positive(tally.roles, tally.sum);
    lemma_first_credits(tally.roles);
}

proof fn lemma_first_credits(roles: Rows<i64>)
    requires
        crate::table::distinct(roles),
        forall|i: int| 0 <= i < roles.len() ==> 0 < (#[trigger] roles[i]).1,
    ensures
        more_credits(Seq::empty(), roles) is Ok,
    decreases roles.len(),
{
    if roles.len() > 0 {
        let front = roles.drop_last();
        assert forall|i: int| 0 <= i < front.len() implies 0 < (#[trigger] front[i]).1 by {
            assert(front[i] == roles[i]);
        }
        crate::finance::hold_laws::lemma_amount_of_last(roles, roles.last().0);
        lemma_first_credits(front);
        let before = more_credits(Seq::empty(), front)->Ok_0;
        lemma_more_credits(Seq::empty(), front, before, roles.last().0);
    }
}

/// A quote whose plan reads badly lets nothing be settled or charged, and lines that the plan does
/// not name are refused.
pub proof fn law_nothing_beyond_a_plan_is_paid(
    books: Books,
    authority: Seq<char>,
    settle: SettlePoolInput,
    debit: DebitPoolInput,
    now: i64,
    journal_id: Seq<char>,
    i: int,
)
    requires
        lookup(books.quotes, settle.quote_id@) matches Some(quote) && (quote.items(
            "beneficiaries"@,
        ) matches Some(rows) ==> caps_fit(quote_plan(rows))),
        debit.quote_id@ == settle.quote_id@,
    ensures
        slice_settled(books, authority, settle, now, journal_id) matches Ok((_, answer)) && answer
            is Settled && 0 <= i < settle.lines@.len() ==> {
            let line = lines_of(settle.lines@)[i];
            let plan = quote_plan(
                lookup(books.quotes, settle.quote_id@)->0.items("beneficiaries"@)->0,
            );
            &&& is_line(line)
            &&& names(plan, line.user_id, line.role)
            &&& line.user_id != settle.payer_user_id@
            &&& exists|j: int|
                0 <= j < plan.len() && (#[trigger] plan[j]).user_id == line.user_id && plan[j].role
                    == line.role && role_sum(lines_of(settle.lines@), line.user_id, line.role)
                    <= plan[j].max_amount
        },
        pool_debited(books, authority, debit, now, journal_id) matches Ok((_, answer)) && answer
            is Charged && 0 <= i < debit.lines@.len() ==> {
            let line = lines_of(debit.lines@)[i];
            let plan = quote_plan(
                lookup(books.quotes, debit.quote_id@)->0.items("beneficiaries"@)->0,
            );
            &&& is_line(line)
            &&& names(plan, line.user_id, line.role)
            &&& line.user_id != debit.payer_user_id@
        },
{
    let quote = lookup(books.quotes, settle.quote_id@)->0;
    let plan = quote_plan(quote.items("beneficiaries"@)->0);
    let a = lines_of(settle.lines@);
    let b = lines_of(debit.lines@);
    if tally_of(a, caps_of(plan), settle.payer_user_id@, Rules::Reservation) is Ok && 0 <= i
        < a.len() && quote.items("beneficiaries"@) is Some {
        law_only_lines_within_their_plan_are_taken(
            a,
            plan,
            settle.payer_user_id@,
            Rules::Reservation,
            i,
        );
    }
    if tally_of(b, caps_of(plan), debit.payer_user_id@, Rules::Debit) is Ok && 0 <= i < b.len()
        && quote.items("beneficiaries"@) is Some {
        law_only_lines_within_their_plan_are_taken(b, plan, debit.payer_user_id@, Rules::Debit, i);
    }
}

} // verus!
