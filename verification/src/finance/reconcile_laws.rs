//! What a reconciliation expects of every counter, that it finds nothing where all agree, and
//! that it finds whatever does not.
use vstd::prelude::*;

use crate::decimal::decimal;
use crate::finance::audit_laws::{
    found, held, is_sound, line_sum, lines_pay, payout_held, pools_are_valid,
};
use crate::finance::earning_laws::{
    credit_of, earning, hold_earning, live_earning, paid_to, run_earning,
};
use crate::finance::laws::{
    backing, hold_backing, hold_spending, live_spending, pool_backing, run_spending, spending,
};
use crate::finance::ledger::{Books, HoldState, Line, LiveDebitState, PoolState, ReservationState};
use crate::finance::pools::is_balanced;
use crate::finance::reconcile::{
    credit_user, credits_replayed, debit_replayed, debits_replayed, fresh_audit, hold_replayed,
    holds_replayed, lines_replayed, pool_replayed, pools_replayed, raw_of, records_replayed,
    reservation_replayed, reservations_replayed, scanned, withdrawables_of, Audit, Scan,
};
use crate::finance::settlement::{amount_in, plain_amount};
use crate::table::{
    law_lookup_after_store, law_total_after_store, lemma_row_from, stored, total, Rows,
};

verus! {

broadcast use law_lookup_after_store;

// ---------------------------------------------------------------- what the records say

/// What a hold reserves of a project's budget.
pub open spec fn project_backing(project: Seq<char>) -> spec_fn(Seq<char>, HoldState) -> int {
    |id: Seq<char>, hold: HoldState|
        if (hold.status == "open"@ || hold.status == "running"@) && hold.project_id == project {
            hold.max_amount
        } else {
            0
        }
}

/// What a hold spent of a project's budget.
pub open spec fn project_spending(project: Seq<char>) -> spec_fn(Seq<char>, HoldState) -> int {
    |id: Seq<char>, hold: HoldState|
        if hold.status == "settled"@ && hold.project_id == project {
            hold.actual_amount
        } else {
            0
        }
}

/// What a run keeps reserved of a pool.
pub open spec fn slice_backing(pool: Seq<char>) -> spec_fn(Seq<char>, ReservationState) -> int {
    |id: Seq<char>, run: ReservationState|
        if run.status == "reserved"@ && run.pool_id == pool {
            run.amount
        } else {
            0
        }
}

/// What a hold paid out in all.
pub open spec fn hold_payment() -> spec_fn(Seq<char>, HoldState) -> int {
    |id: Seq<char>, hold: HoldState|
        if hold.status == "settled"@ {
            line_sum(hold.settlement_lines)
        } else {
            0
        }
}

/// What a run paid out in all.
pub open spec fn run_payment() -> spec_fn(Seq<char>, ReservationState) -> int {
    |id: Seq<char>, run: ReservationState|
        if run.status == "settled"@ {
            line_sum(run.settlement_lines)
        } else {
            0
        }
}

/// What a run paid out while it went on.
pub open spec fn live_payment() -> spec_fn(Seq<char>, LiveDebitState) -> int {
    |id: Seq<char>, debit: LiveDebitState| total(debit.credits, plain_amount())
}

/// Whether the figures of a run are those that its status calls for.
pub open spec fn is_sound_run(run: ReservationState) -> bool {
    &&& run.payer_user_id.len() > 0
    &&& run.pool_id.len() > 0
    &&& run.amount >= 0
    &&& {
        ||| run.status == "reserved"@
        ||| run.status == "released"@
        ||| run.status == "settled"@ && lines_pay(run.settlement_lines) && line_sum(
            run.settlement_lines,
        ) == run.actual_amount
    }
}

/// Whether a run was charged exactly what its credits paid to somebody.
pub open spec fn is_sound_debit(debit: LiveDebitState) -> bool {
    &&& debit.payer_user_id.len() > 0
    &&& total(debit.credits, plain_amount()) == debit.charged_total
    &&& forall|i: int|
        0 <= i < debit.credits.len() ==> (#[trigger] debit.credits[i]).1 > 0 && credit_user(
            debit.credits[i].0,
        ).len() > 0
}

/// Whether all the records of books are sound.
pub open spec fn records_are_sound(
    holds: Rows<HoldState>,
    pools: Rows<PoolState>,
    runs: Rows<ReservationState>,
    debits: Rows<LiveDebitState>,
) -> bool {
    &&& forall|i: int| 0 <= i < holds.len() ==> is_sound((#[trigger] holds[i]).1)
    &&& pools_are_valid(pools)
    &&& forall|i: int| 0 <= i < pools.len() ==> is_balanced((#[trigger] pools[i]).1)
    &&& forall|i: int| 0 <= i < runs.len() ==> is_sound_run((#[trigger] runs[i]).1)
    &&& forall|i: int| 0 <= i < debits.len() ==> is_sound_debit((#[trigger] debits[i]).1)
}

/// What everyone was paid together.
pub open spec fn paid_in_all(
    holds: Rows<HoldState>,
    runs: Rows<ReservationState>,
    debits: Rows<LiveDebitState>,
) -> int {
    total(holds, hold_payment()) + total(runs, run_payment()) + total(debits, live_payment())
}

/// Whether every sum over the records can be held in 64 bits.
pub open spec fn sums_fit(
    holds: Rows<HoldState>,
    pools: Rows<PoolState>,
    runs: Rows<ReservationState>,
    debits: Rows<LiveDebitState>,
) -> bool {
    &&& forall|u: Seq<char>|
        #![trigger hold_backing(u)]
        total(holds, hold_backing(u)) + total(pools, pool_backing(u)) <= i64::MAX
    &&& forall|u: Seq<char>|
        #![trigger hold_spending(u)]
        total(holds, hold_spending(u)) + total(runs, run_spending(u)) + total(
            debits,
            live_spending(u),
        ) <= i64::MAX
    &&& forall|u: Seq<char>|
        #![trigger hold_earning(u)]
        total(holds, hold_earning(u)) + total(runs, run_earning(u)) + total(
            debits,
            live_earning(u),
        ) <= i64::MAX
    &&& forall|p: Seq<char>| #[trigger] total(holds, project_backing(p)) <= i64::MAX
    &&& forall|p: Seq<char>| #[trigger] total(holds, project_spending(p)) <= i64::MAX
    &&& forall|p: Seq<char>| #[trigger] total(runs, slice_backing(p)) <= i64::MAX
    &&& paid_in_all(holds, runs, debits) <= i64::MAX
}

/// Whether an audit found no fault and expects of every counter what the records add up to.
pub open spec fn tells(
    a: Audit,
    holds: Rows<HoldState>,
    pools: Rows<PoolState>,
    runs: Rows<ReservationState>,
    debits: Rows<LiveDebitState>,
) -> bool {
    &&& forall|u: Seq<char>|
        #[trigger] amount_in(a.held, u) == total(holds, hold_backing(u)) + total(
            pools,
            pool_backing(u),
        )
    &&& forall|u: Seq<char>|
        #[trigger] amount_in(a.spent, u) == total(holds, hold_spending(u)) + total(
            runs,
            run_spending(u),
        ) + total(debits, live_spending(u))
    &&& forall|u: Seq<char>|
        #[trigger] amount_in(a.earned, u) == total(holds, hold_earning(u)) + total(
            runs,
            run_earning(u),
        ) + total(debits, live_earning(u))
    &&& forall|p: Seq<char>|
        p.len() > 0 ==> #[trigger] amount_in(a.project_reserved, p) == total(
            holds,
            project_backing(p),
        )
    &&& forall|p: Seq<char>|
        p.len() > 0 ==> #[trigger] amount_in(a.project_spent, p) == total(
            holds,
            project_spending(p),
        )
    &&& amount_in(a.project_reserved, Seq::empty()) == 0
    &&& amount_in(a.project_spent, Seq::empty()) == 0
    &&& forall|p: Seq<char>| #[trigger] amount_in(a.pool_reserved, p) == total(runs, slice_backing(p))
    &&& total(a.earned, plain_amount()) == paid_in_all(holds, runs, debits)
    &&& forall|i: int| 0 <= i < a.earned.len() ==> (#[trigger] a.earned[i]).1 >= 0
    &&& a.findings.len() == 0
    &&& a.payout_held.len() == 0
}

// ---------------------------------------------------------------- nothing is negative

proof fn lemma_paid_is_positive(lines: Seq<Line>, user: Seq<char>)
    requires
        lines_pay(lines),
    ensures
        0 <= paid_to(lines, user) <= line_sum(lines),
    decreases lines.len(),
{
    if lines.len() > 0 {
        let front = lines.drop_last();
        assert(lines.last() == lines[lines.len() - 1]);
        assert forall|i: int| 0 <= i < front.len() implies (#[trigger] front[i]).amount > 0
            && front[i].user_id.len() > 0 by {
            assert(front[i] == lines[i]);
        }
        lemma_paid_is_positive(front, user);
    }
}

proof fn lemma_credits_are_positive(credits: Rows<i64>, user: Seq<char>)
    requires
        forall|i: int|
            0 <= i < credits.len() ==> (#[trigger] credits[i]).1 > 0 && credit_user(
                credits[i].0,
            ).len() > 0,
    ensures
        0 <= total(credits, credit_of(user)) <= total(credits, plain_amount()),
    decreases credits.len(),
{
    if credits.len() > 0 {
        let front = credits.drop_last();
        assert(credits.last() == credits[credits.len() - 1]);
        assert forall|i: int| 0 <= i < front.len() implies (#[trigger] front[i]).1 > 0
            && credit_user(front[i].0).len() > 0 by {
            assert(front[i] == credits[i]);
        }
        lemma_credits_are_positive(front, user);
    }
}

/// The words for a status differ.
pub proof fn lemma_words()
    ensures
        "open"@ != "settled"@,
        "running"@ != "settled"@,
        "released"@ != "settled"@,
        "expired"@ != "settled"@,
        "released"@ != "open"@,
        "released"@ != "running"@,
        "expired"@ != "open"@,
        "expired"@ != "running"@,
        "released"@ != "expired"@,
        "reserved"@ != "settled"@,
        "reserved"@ != "released"@,
{
    reveal_strlit("open");
    reveal_strlit("running");
    reveal_strlit("released");
    reveal_strlit("expired");
    reveal_strlit("reserved");
    reveal_strlit("settled");
    assert("open"@.len() == 4);
    assert("running"@.len() == 7 && "running"@[0] == 'r');
    assert("settled"@.len() == 7 && "settled"@[0] == 's');
    assert("expired"@.len() == 7 && "expired"@[0] == 'e');
    assert("released"@.len() == 8 && "released"@[2] == 'l');
    assert("reserved"@.len() == 8 && "reserved"@[2] == 's');
}

/// No figure of a sound hold is negative.
proof fn lemma_hold_figures(hold: HoldState, key: Seq<char>, id: Seq<char>)
    requires
        is_sound(hold),
    ensures
        hold_backing(key)(id, hold) >= 0,
        hold_spending(key)(id, hold) >= 0,
        hold_earning(key)(id, hold) >= 0,
        project_backing(key)(id, hold) >= 0,
        project_spending(key)(id, hold) >= 0,
        hold_payment()(id, hold) >= 0,
{
    lemma_words();
    if hold.status == "settled"@ {
        lemma_paid_is_positive(hold.settlement_lines, key);
    }
}

proof fn lemma_run_figures(run: ReservationState, key: Seq<char>, id: Seq<char>)
    requires
        is_sound_run(run),
    ensures
        run_spending(key)(id, run) >= 0,
        run_earning(key)(id, run) >= 0,
        slice_backing(key)(id, run) >= 0,
        run_payment()(id, run) >= 0,
{
    lemma_words();
    if run.status == "settled"@ {
        lemma_paid_is_positive(run.settlement_lines, key);
    }
}

proof fn lemma_debit_figures(debit: LiveDebitState, key: Seq<char>, id: Seq<char>)
    requires
        is_sound_debit(debit),
    ensures
        live_spending(key)(id, debit) >= 0,
        live_earning(key)(id, debit) >= 0,
        live_payment()(id, debit) >= 0,
{
    lemma_credits_are_positive(debit.credits, key);
}

proof fn lemma_total_is_positive<T>(rows: Rows<T>, figure: spec_fn(Seq<char>, T) -> int)
    requires
        forall|i: int| 0 <= i < rows.len() ==> figure((#[trigger] rows[i]).0, rows[i].1) >= 0,
    ensures
        total(rows, figure) >= 0,
    decreases rows.len(),
{
    if rows.len() > 0 {
        let front = rows.drop_last();
        assert(rows.last() == rows[rows.len() - 1]);
        assert forall|i: int| 0 <= i < front.len() implies figure(
            (#[trigger] front[i]).0,
            front[i].1,
        ) >= 0 by {
            assert(front[i] == rows[i]);
        }
        lemma_total_is_positive(front, figure);
    }
}

/// No sum over sound records is negative.
pub proof fn lemma_sums_are_positive(
    holds: Rows<HoldState>,
    pools: Rows<PoolState>,
    runs: Rows<ReservationState>,
    debits: Rows<LiveDebitState>,
    key: Seq<char>,
)
    requires
        records_are_sound(holds, pools, runs, debits),
    ensures
        total(holds, hold_backing(key)) >= 0,
        total(holds, hold_spending(key)) >= 0,
        total(holds, hold_earning(key)) >= 0,
        total(holds, project_backing(key)) >= 0,
        total(holds, project_spending(key)) >= 0,
        total(holds, hold_payment()) >= 0,
        total(pools, pool_backing(key)) >= 0,
        total(runs, run_spending(key)) >= 0,
        total(runs, run_earning(key)) >= 0,
        total(runs, slice_backing(key)) >= 0,
        total(runs, run_payment()) >= 0,
        total(debits, live_spending(key)) >= 0,
        total(debits, live_earning(key)) >= 0,
        total(debits, live_payment()) >= 0,
{
    assert forall|i: int| 0 <= i < holds.len() implies is_sound((#[trigger] holds[i]).1)
        && hold_backing(key)(holds[i].0, holds[i].1) >= 0 && hold_spending(key)(
        holds[i].0,
        holds[i].1,
    ) >= 0 && hold_earning(key)(holds[i].0, holds[i].1) >= 0 && project_backing(key)(
        holds[i].0,
        holds[i].1,
    ) >= 0 && project_spending(key)(holds[i].0, holds[i].1) >= 0 && hold_payment()(
        holds[i].0,
        holds[i].1,
    ) >= 0 by {
        lemma_hold_figures(holds[i].1, key, holds[i].0);
    }
    assert forall|i: int| 0 <= i < runs.len() implies run_spending(key)(
        (#[trigger] runs[i]).0,
        runs[i].1,
    ) >= 0 && run_earning(key)(runs[i].0, runs[i].1) >= 0 && slice_backing(key)(
        runs[i].0,
        runs[i].1,
    ) >= 0 && run_payment()(runs[i].0, runs[i].1) >= 0 by {
        lemma_run_figures(runs[i].1, key, runs[i].0);
    }
    assert forall|i: int| 0 <= i < debits.len() implies live_spending(key)(
        (#[trigger] debits[i]).0,
        debits[i].1,
    ) >= 0 && live_earning(key)(debits[i].0, debits[i].1) >= 0 && live_payment()(
        debits[i].0,
        debits[i].1,
    ) >= 0 by {
        lemma_debit_figures(debits[i].1, key, debits[i].0);
    }
    lemma_total_is_positive(holds, hold_backing(key));
    lemma_total_is_positive(holds, hold_spending(key));
    lemma_total_is_positive(holds, hold_earning(key));
    lemma_total_is_positive(holds, project_backing(key));
    lemma_total_is_positive(holds, project_spending(key));
    lemma_total_is_positive(holds, hold_payment());
    lemma_total_is_positive(pools, pool_backing(key));
    lemma_total_is_positive(runs, run_spending(key));
    lemma_total_is_positive(runs, run_earning(key));
    lemma_total_is_positive(runs, slice_backing(key));
    lemma_total_is_positive(runs, run_payment());
    lemma_total_is_positive(debits, live_spending(key));
    lemma_total_is_positive(debits, live_earning(key));
    lemma_total_is_positive(debits, live_payment());
}

// ---------------------------------------------------------------- lines and credits

proof fn lemma_rows_stay_positive(rows: Rows<i64>, key: Seq<char>, amount: i64)
    requires
        forall|i: int| 0 <= i < rows.len() ==> (#[trigger] rows[i]).1 >= 0,
        amount >= 0,
    ensures
        forall|i: int|
            0 <= i < stored(rows, key, amount).len() ==> (#[trigger] stored(
                rows,
                key,
                amount,
            )[i]).1 >= 0,
{
    lemma_row_from(rows, key, 0);
}

/// Lines that pay are replayed as earnings of those they pay, and nothing else changes.
proof fn lemma_lines_tell(
    a: Audit,
    lines: Seq<Line>,
    code: Seq<char>,
    reference: Seq<char>,
    detail: Seq<char>,
)
    requires
        lines_pay(lines),
        line_sum(lines) <= i64::MAX,
        forall|u: Seq<char>| 0 <= #[trigger] amount_in(a.earned, u),
        forall|u: Seq<char>| #[trigger] amount_in(a.earned, u) + paid_to(lines, u) <= i64::MAX,
        forall|i: int| 0 <= i < a.earned.len() ==> (#[trigger] a.earned[i]).1 >= 0,
    ensures
        ({
            let (b, sum) = lines_replayed(a, lines, code, reference, detail);
            &&& sum == line_sum(lines)
            &&& b == (Audit { earned: b.earned, ..a })
            &&& forall|u: Seq<char>|
                #[trigger] amount_in(b.earned, u) == amount_in(a.earned, u) + paid_to(lines, u)
            &&& total(b.earned, plain_amount()) == total(a.earned, plain_amount()) + line_sum(lines)
            &&& forall|i: int| 0 <= i < b.earned.len() ==> (#[trigger] b.earned[i]).1 >= 0
        }),
    decreases lines.len(),
{
    if lines.len() > 0 {
        let front = lines.drop_last();
        let line = lines.last();
        assert(line == lines[lines.len() - 1]);
        assert forall|i: int| 0 <= i < front.len() implies (#[trigger] front[i]).amount > 0
            && front[i].user_id.len() > 0 by {
            assert(front[i] == lines[i]);
        }
        assert forall|u: Seq<char>|
            #[trigger] amount_in(a.earned, u) + paid_to(front, u) <= i64::MAX by {
            assert(amount_in(a.earned, u) + paid_to(lines, u) <= i64::MAX);
        }
        lemma_lines_tell(a, front, code, reference, detail);
        lemma_paid_is_positive(front, line.user_id);
        let before = lines_replayed(a, front, code, reference, detail).0;
        let user = line.user_id;
        assert(amount_in(before.earned, user) == amount_in(a.earned, user) + paid_to(front, user));
        assert(amount_in(a.earned, user) + paid_to(lines, user) <= i64::MAX);
        let next = (amount_in(before.earned, user) + line.amount) as i64;
        law_total_after_store(before.earned, user, next, plain_amount());
        lemma_rows_stay_positive(before.earned, user, next);
        let b = lines_replayed(a, lines, code, reference, detail).0;
        assert(b.earned == stored(before.earned, user, next));
        assert forall|u: Seq<char>|
            #[trigger] amount_in(b.earned, u) == amount_in(a.earned, u) + paid_to(lines, u) by {
            assert(amount_in(before.earned, u) == amount_in(a.earned, u) + paid_to(front, u));
        }
    }
}

/// Credits are replayed as earnings of their users, and nothing else changes.
proof fn lemma_credits_tell(a: Audit, credits: Rows<i64>, id: Seq<char>)
    requires
        forall|i: int|
            0 <= i < credits.len() ==> (#[trigger] credits[i]).1 > 0 && credit_user(
                credits[i].0,
            ).len() > 0,
        total(credits, plain_amount()) <= i64::MAX,
        forall|u: Seq<char>| 0 <= #[trigger] amount_in(a.earned, u),
        forall|u: Seq<char>|
            #[trigger] amount_in(a.earned, u) + total(credits, credit_of(u)) <= i64::MAX,
        forall|i: int| 0 <= i < a.earned.len() ==> (#[trigger] a.earned[i]).1 >= 0,
    ensures
        ({
            let (b, sum) = credits_replayed(a, credits, id);
            &&& sum == total(credits, plain_amount())
            &&& b == (Audit { earned: b.earned, ..a })
            &&& forall|u: Seq<char>|
                #[trigger] amount_in(b.earned, u) == amount_in(a.earned, u) + total(
                    credits,
                    credit_of(u),
                )
            &&& total(b.earned, plain_amount()) == total(a.earned, plain_amount()) + total(
                credits,
                plain_amount(),
            )
            &&& forall|i: int| 0 <= i < b.earned.len() ==> (#[trigger] b.earned[i]).1 >= 0
        }),
    decreases credits.len(),
{
    if credits.len() > 0 {
        let front = credits.drop_last();
        let (key, amount) = credits.last();
        assert(credits.last() == credits[credits.len() - 1]);
        assert forall|i: int| 0 <= i < front.len() implies (#[trigger] front[i]).1 > 0
            && credit_user(front[i].0).len() > 0 by {
            assert(front[i] == credits[i]);
        }
        assert forall|u: Seq<char>|
            #[trigger] amount_in(a.earned, u) + total(front, credit_of(u)) <= i64::MAX by {
            assert(amount_in(a.earned, u) + total(credits, credit_of(u)) <= i64::MAX);
        }
        lemma_credits_tell(a, front, id);
        let user = credit_user(key);
        lemma_credits_are_positive(front, user);
        let before = credits_replayed(a, front, id).0;
        assert(amount_in(before.earned, user) == amount_in(a.earned, user) + total(
            front,
            credit_of(user),
        ));
        assert(amount_in(a.earned, user) + total(credits, credit_of(user)) <= i64::MAX);
        let next = (amount_in(before.earned, user) + amount) as i64;
        law_total_after_store(before.earned, user, next, plain_amount());
        lemma_rows_stay_positive(before.earned, user, next);
        let b = credits_replayed(a, credits, id).0;
        assert(b.earned == stored(before.earned, user, next));
        assert forall|u: Seq<char>|
            #[trigger] amount_in(b.earned, u) == amount_in(a.earned, u) + total(
                credits,
                credit_of(u),
            ) by {
            assert(amount_in(before.earned, u) == amount_in(a.earned, u) + total(
                front,
                credit_of(u),
            ));
        }
    }
}

// ---------------------------------------------------------------- the records

proof fn lemma_front_is_sound<T>(rows: Rows<T>)
    requires
        rows.len() > 0,
    ensures
        found(rows).drop_last() == found(rows.drop_last()),
        found(rows).last() == (rows.last().0, Some(rows.last().1)),
        forall|i: int| 0 <= i < rows.drop_last().len() ==> rows.drop_last()[i] == rows[i],
        rows.last() == rows[rows.len() - 1],
{
    assert(found(rows).drop_last() =~= found(rows.drop_last()));
}

#[verifier::rlimit(40)]
proof fn lemma_holds_tell(holds: Rows<HoldState>)
    requires
        records_are_sound(holds, Seq::empty(), Seq::empty(), Seq::empty()),
        sums_fit(holds, Seq::empty(), Seq::empty(), Seq::empty()),
    ensures
        tells(
            holds_replayed(fresh_audit(), found(holds)),
            holds,
            Seq::empty(),
            Seq::empty(),
            Seq::empty(),
        ),
    decreases holds.len(),
{
    let no_pools = Seq::<(Seq<char>, PoolState)>::empty();
    let no_runs = Seq::<(Seq<char>, ReservationState)>::empty();
    let no_debits = Seq::<(Seq<char>, LiveDebitState)>::empty();
    if holds.len() == 0 {
        assert(found(holds) =~= Seq::empty());
    } else {
        lemma_words();
        let front = holds.drop_last();
        let (id, hold) = holds.last();
        lemma_front_is_sound(holds);
        assert(is_sound(hold));
        assert(records_are_sound(front, no_pools, no_runs, no_debits));
        lemma_hold_figures(hold, Seq::empty(), id);
        assert(sums_fit(front, no_pools, no_runs, no_debits)) by {
            assert forall|u: Seq<char>|
                #![trigger hold_backing(u)]
                total(front, hold_backing(u)) + total(no_pools, pool_backing(u)) <= i64::MAX by {
                lemma_hold_figures(hold, u, id);
                assert(total(holds, hold_backing(u)) + total(no_pools, pool_backing(u))
                    <= i64::MAX);
            }
            assert forall|u: Seq<char>|
                #![trigger hold_spending(u)]
                total(front, hold_spending(u)) + total(no_runs, run_spending(u)) + total(
                    no_debits,
                    live_spending(u),
                ) <= i64::MAX by {
                lemma_hold_figures(hold, u, id);
                assert(total(holds, hold_spending(u)) + total(no_runs, run_spending(u)) + total(
                    no_debits,
                    live_spending(u),
                ) <= i64::MAX);
            }
            assert forall|u: Seq<char>|
                #![trigger hold_earning(u)]
                total(front, hold_earning(u)) + total(no_runs, run_earning(u)) + total(
                    no_debits,
                    live_earning(u),
                ) <= i64::MAX by {
                lemma_hold_figures(hold, u, id);
                assert(total(holds, hold_earning(u)) + total(no_runs, run_earning(u)) + total(
                    no_debits,
                    live_earning(u),
                ) <= i64::MAX);
            }
            assert forall|p: Seq<char>| #[trigger] total(front, project_backing(p))
                <= i64::MAX by {
                lemma_hold_figures(hold, p, id);
                assert(total(holds, project_backing(p)) <= i64::MAX);
            }
            assert forall|p: Seq<char>| #[trigger] total(front, project_spending(p))
                <= i64::MAX by {
                lemma_hold_figures(hold, p, id);
                assert(total(holds, project_spending(p)) <= i64::MAX);
            }
        }
        lemma_holds_tell(front);
        let a = holds_replayed(fresh_audit(), found(front));
        let b = holds_replayed(fresh_audit(), found(holds));
        assert(b == hold_replayed(a, id, Some(hold)));
        assert forall|u: Seq<char>| 0 <= #[trigger] amount_in(a.earned, u) by {
            lemma_sums_are_positive(front, no_pools, no_runs, no_debits, u);
        }
        if hold.status == "settled"@ {
            lemma_sums_are_positive(front, no_pools, no_runs, no_debits, hold.payer_user_id);
            assert(line_sum(hold.settlement_lines) <= i64::MAX) by {
                assert(paid_in_all(holds, no_runs, no_debits) <= i64::MAX);
            }
            assert forall|u: Seq<char>|
                #[trigger] amount_in(a.earned, u) + paid_to(hold.settlement_lines, u)
                    <= i64::MAX by {
                assert(total(holds, hold_earning(u)) + total(no_runs, run_earning(u)) + total(
                    no_debits,
                    live_earning(u),
                ) <= i64::MAX);
            }
            lemma_lines_tell(
                a,
                hold.settlement_lines,
                "settlement.line_invalid"@,
                id,
                "invalid beneficiary settlement line"@,
            );
            let payer = hold.payer_user_id;
            assert(total(holds, hold_spending(payer)) + total(no_runs, run_spending(payer)) + total(
                no_debits,
                live_spending(payer),
            ) <= i64::MAX);
            assert(amount_in(a.spent, payer) + hold.actual_amount <= i64::MAX);
            let project = hold.project_id;
            assert(total(holds, project_spending(project)) <= i64::MAX);
            if project.len() > 0 {
                assert(amount_in(a.project_spent, project) + hold.actual_amount <= i64::MAX);
            }
        } else {
            let payer = hold.payer_user_id;
            assert(total(holds, hold_backing(payer)) + total(no_pools, pool_backing(payer))
                <= i64::MAX);
            let project = hold.project_id;
            assert(total(holds, project_backing(project)) <= i64::MAX);
            if project.len() > 0 {
                assert(amount_in(a.project_reserved, project) == total(
                    front,
                    project_backing(project),
                ));
            }
            assert(amount_in(a.held, payer) == total(front, hold_backing(payer)) + total(
                no_pools,
                pool_backing(payer),
            ));
        }
        assert forall|u: Seq<char>|
            #[trigger] amount_in(b.held, u) == total(holds, hold_backing(u)) + total(
                no_pools,
                pool_backing(u),
            ) by {
            assert(amount_in(a.held, u) == total(front, hold_backing(u)) + total(
                no_pools,
                pool_backing(u),
            ));
        }
        assert forall|u: Seq<char>|
            #[trigger] amount_in(b.spent, u) == total(holds, hold_spending(u)) + total(
                no_runs,
                run_spending(u),
            ) + total(no_debits, live_spending(u)) by {
            assert(amount_in(a.spent, u) == total(front, hold_spending(u)) + total(
                no_runs,
                run_spending(u),
            ) + total(no_debits, live_spending(u)));
        }
        assert forall|u: Seq<char>|
            #[trigger] amount_in(b.earned, u) == total(holds, hold_earning(u)) + total(
                no_runs,
                run_earning(u),
            ) + total(no_debits, live_earning(u)) by {
            assert(amount_in(a.earned, u) == total(front, hold_earning(u)) + total(
                no_runs,
                run_earning(u),
            ) + total(no_debits, live_earning(u)));
        }
        assert forall|p: Seq<char>| p.len() > 0 implies #[trigger] amount_in(b.project_reserved, p)
            == total(holds, project_backing(p)) by {
            assert(amount_in(a.project_reserved, p) == total(front, project_backing(p)));
        }
        assert forall|p: Seq<char>| p.len() > 0 implies #[trigger] amount_in(b.project_spent, p)
            == total(holds, project_spending(p)) by {
            assert(amount_in(a.project_spent, p) == total(front, project_spending(p)));
        }
    }
}

#[verifier::rlimit(40)]
proof fn lemma_pools_tell(a: Audit, holds: Rows<HoldState>, pools: Rows<PoolState>)
    requires
        records_are_sound(holds, pools, Seq::empty(), Seq::empty()),
        sums_fit(holds, pools, Seq::empty(), Seq::empty()),
        tells(a, holds, Seq::empty(), Seq::empty(), Seq::empty()),
    ensures
        tells(pools_replayed(a, found(pools)), holds, pools, Seq::empty(), Seq::empty()),
    decreases pools.len(),
{
    let no_runs = Seq::<(Seq<char>, ReservationState)>::empty();
    let no_debits = Seq::<(Seq<char>, LiveDebitState)>::empty();
    if pools.len() == 0 {
        assert(found(pools) =~= Seq::empty());
        assert(pools =~= Seq::empty());
    } else {
        let front = pools.drop_last();
        let (id, pool) = pools.last();
        lemma_front_is_sound(pools);
        assert(crate::finance::reconcile::is_pool_readable(pools[pools.len() - 1].1));
        assert(is_balanced(pool));
        assert(pools_are_valid(front)) by {
            assert forall|i: int| 0 <= i < front.len() implies
                crate::finance::reconcile::is_pool_readable((#[trigger] front[i]).1) by {
                assert(front[i] == pools[i]);
            }
        }
        assert(records_are_sound(holds, front, no_runs, no_debits));
        assert(sums_fit(holds, front, no_runs, no_debits)) by {
            assert forall|u: Seq<char>|
                #![trigger hold_backing(u)]
                total(holds, hold_backing(u)) + total(front, pool_backing(u)) <= i64::MAX by {
                assert(total(holds, hold_backing(u)) + total(pools, pool_backing(u)) <= i64::MAX);
            }
            assert forall|u: Seq<char>|
                #![trigger hold_spending(u)]
                total(holds, hold_spending(u)) + total(no_runs, run_spending(u)) + total(
                    no_debits,
                    live_spending(u),
                ) <= i64::MAX by {}
            assert forall|u: Seq<char>|
                #![trigger hold_earning(u)]
                total(holds, hold_earning(u)) + total(no_runs, run_earning(u)) + total(
                    no_debits,
                    live_earning(u),
                ) <= i64::MAX by {}
        }
        lemma_pools_tell(a, holds, front);
        let before = pools_replayed(a, found(front));
        let b = pools_replayed(a, found(pools));
        assert(b == pool_replayed(before, id, Some(pool)));
        let payer = pool.payer_user_id;
        lemma_sums_are_positive(holds, front, no_runs, no_debits, payer);
        assert(total(holds, hold_backing(payer)) + total(pools, pool_backing(payer)) <= i64::MAX);
        assert(amount_in(before.held, payer) == total(holds, hold_backing(payer)) + total(
            front,
            pool_backing(payer),
        ));
        assert forall|u: Seq<char>|
            #[trigger] amount_in(b.held, u) == total(holds, hold_backing(u)) + total(
                pools,
                pool_backing(u),
            ) by {
            assert(amount_in(before.held, u) == total(holds, hold_backing(u)) + total(
                front,
                pool_backing(u),
            ));
        }
        assert forall|u: Seq<char>|
            #[trigger] amount_in(b.spent, u) == total(holds, hold_spending(u)) + total(
                no_runs,
                run_spending(u),
            ) + total(no_debits, live_spending(u)) by {
            assert(amount_in(before.spent, u) == total(holds, hold_spending(u)) + total(
                no_runs,
                run_spending(u),
            ) + total(no_debits, live_spending(u)));
        }
        assert forall|u: Seq<char>|
            #[trigger] amount_in(b.earned, u) == total(holds, hold_earning(u)) + total(
                no_runs,
                run_earning(u),
            ) + total(no_debits, live_earning(u)) by {
            assert(amount_in(before.earned, u) == total(holds, hold_earning(u)) + total(
                no_runs,
                run_earning(u),
            ) + total(no_debits, live_earning(u)));
        }
        assert forall|p: Seq<char>| p.len() > 0 implies #[trigger] amount_in(b.project_reserved, p)
            == total(holds, project_backing(p)) by {
            assert(amount_in(before.project_reserved, p) == total(holds, project_backing(p)));
        }
        assert forall|p: Seq<char>| p.len() > 0 implies #[trigger] amount_in(b.project_spent, p)
            == total(holds, project_spending(p)) by {
            assert(amount_in(before.project_spent, p) == total(holds, project_spending(p)));
        }
        assert forall|p: Seq<char>| #[trigger] amount_in(b.pool_reserved, p) == total(
            no_runs,
            slice_backing(p),
        ) by {
            assert(amount_in(before.pool_reserved, p) == total(no_runs, slice_backing(p)));
        }
    }
}

#[verifier::rlimit(60)]
proof fn lemma_runs_tell(
    a: Audit,
    holds: Rows<HoldState>,
    pools: Rows<PoolState>,
    runs: Rows<ReservationState>,
)
    requires
        records_are_sound(holds, pools, runs, Seq::empty()),
        sums_fit(holds, pools, runs, Seq::empty()),
        tells(a, holds, pools, Seq::empty(), Seq::empty()),
    ensures
        tells(reservations_replayed(a, found(runs)), holds, pools, runs, Seq::empty()),
    decreases runs.len(),
{
    let no_debits = Seq::<(Seq<char>, LiveDebitState)>::empty();
    if runs.len() == 0 {
        assert(found(runs) =~= Seq::empty());
        assert(runs =~= Seq::empty());
    } else {
        lemma_words();
        let front = runs.drop_last();
        let (id, run) = runs.last();
        lemma_front_is_sound(runs);
        assert(is_sound_run(runs[runs.len() - 1].1));
        assert(records_are_sound(holds, pools, front, no_debits));
        lemma_run_figures(run, Seq::empty(), id);
        assert(sums_fit(holds, pools, front, no_debits)) by {
            assert forall|u: Seq<char>|
                #![trigger hold_backing(u)]
                total(holds, hold_backing(u)) + total(pools, pool_backing(u)) <= i64::MAX by {}
            assert forall|u: Seq<char>|
                #![trigger hold_spending(u)]
                total(holds, hold_spending(u)) + total(front, run_spending(u)) + total(
                    no_debits,
                    live_spending(u),
                ) <= i64::MAX by {
                lemma_run_figures(run, u, id);
                assert(total(holds, hold_spending(u)) + total(runs, run_spending(u)) + total(
                    no_debits,
                    live_spending(u),
                ) <= i64::MAX);
            }
            assert forall|u: Seq<char>|
                #![trigger hold_earning(u)]
                total(holds, hold_earning(u)) + total(front, run_earning(u)) + total(
                    no_debits,
                    live_earning(u),
                ) <= i64::MAX by {
                lemma_run_figures(run, u, id);
                assert(total(holds, hold_earning(u)) + total(runs, run_earning(u)) + total(
                    no_debits,
                    live_earning(u),
                ) <= i64::MAX);
            }
            assert forall|p: Seq<char>| #[trigger] total(front, slice_backing(p)) <= i64::MAX by {
                lemma_run_figures(run, p, id);
                assert(total(runs, slice_backing(p)) <= i64::MAX);
            }
        }
        lemma_runs_tell(a, holds, pools, front);
        let before = reservations_replayed(a, found(front));
        let b = reservations_replayed(a, found(runs));
        assert(b == reservation_replayed(before, id, Some(run)));
        assert forall|u: Seq<char>| 0 <= #[trigger] amount_in(before.earned, u) by {
            lemma_sums_are_positive(holds, pools, front, no_debits, u);
        }
        lemma_sums_are_positive(holds, pools, front, no_debits, run.payer_user_id);
        lemma_sums_are_positive(holds, pools, front, no_debits, run.pool_id);
        if run.status == "settled"@ {
            lemma_paid_is_positive(run.settlement_lines, Seq::empty());
            assert(line_sum(run.settlement_lines) <= i64::MAX) by {
                assert(paid_in_all(holds, runs, no_debits) <= i64::MAX);
            }
            assert forall|u: Seq<char>|
                #[trigger] amount_in(before.earned, u) + paid_to(run.settlement_lines, u)
                    <= i64::MAX by {
                assert(total(holds, hold_earning(u)) + total(runs, run_earning(u)) + total(
                    no_debits,
                    live_earning(u),
                ) <= i64::MAX);
            }
            lemma_lines_tell(
                before,
                run.settlement_lines,
                "reservation.line_invalid"@,
                id,
                "invalid pool settlement line"@,
            );
            let payer = run.payer_user_id;
            assert(total(holds, hold_spending(payer)) + total(runs, run_spending(payer)) + total(
                no_debits,
                live_spending(payer),
            ) <= i64::MAX);
            assert(amount_in(before.spent, payer) + run.actual_amount <= i64::MAX);
        } else if run.status == "reserved"@ {
            assert(total(runs, slice_backing(run.pool_id)) <= i64::MAX);
            assert(amount_in(before.pool_reserved, run.pool_id) == total(
                front,
                slice_backing(run.pool_id),
            ));
        }
        assert forall|u: Seq<char>|
            #[trigger] amount_in(b.held, u) == total(holds, hold_backing(u)) + total(
                pools,
                pool_backing(u),
            ) by {
            assert(amount_in(before.held, u) == total(holds, hold_backing(u)) + total(
                pools,
                pool_backing(u),
            ));
        }
        assert forall|u: Seq<char>|
            #[trigger] amount_in(b.spent, u) == total(holds, hold_spending(u)) + total(
                runs,
                run_spending(u),
            ) + total(no_debits, live_spending(u)) by {
            assert(amount_in(before.spent, u) == total(holds, hold_spending(u)) + total(
                front,
                run_spending(u),
            ) + total(no_debits, live_spending(u)));
        }
        assert forall|u: Seq<char>|
            #[trigger] amount_in(b.earned, u) == total(holds, hold_earning(u)) + total(
                runs,
                run_earning(u),
            ) + total(no_debits, live_earning(u)) by {
            assert(amount_in(before.earned, u) == total(holds, hold_earning(u)) + total(
                front,
                run_earning(u),
            ) + total(no_debits, live_earning(u)));
        }
        assert forall|p: Seq<char>| p.len() > 0 implies #[trigger] amount_in(b.project_reserved, p)
            == total(holds, project_backing(p)) by {
            assert(amount_in(before.project_reserved, p) == total(holds, project_backing(p)));
        }
        assert forall|p: Seq<char>| p.len() > 0 implies #[trigger] amount_in(b.project_spent, p)
            == total(holds, project_spending(p)) by {
            assert(amount_in(before.project_spent, p) == total(holds, project_spending(p)));
        }
        assert forall|p: Seq<char>| #[trigger] amount_in(b.pool_reserved, p) == total(
            runs,
            slice_backing(p),
        ) by {
            assert(amount_in(before.pool_reserved, p) == total(front, slice_backing(p)));
        }
    }
}

#[verifier::rlimit(60)]
proof fn lemma_debits_tell(
    a: Audit,
    holds: Rows<HoldState>,
    pools: Rows<PoolState>,
    runs: Rows<ReservationState>,
    debits: Rows<LiveDebitState>,
)
    requires
        records_are_sound(holds, pools, runs, debits),
        sums_fit(holds, pools, runs, debits),
        tells(a, holds, pools, runs, Seq::empty()),
    ensures
        tells(debits_replayed(a, found(debits)), holds, pools, runs, debits),
    decreases debits.len(),
{
    if debits.len() == 0 {
        assert(found(debits) =~= Seq::empty());
        assert(debits =~= Seq::empty());
    } else {
        let front = debits.drop_last();
        let (id, debit) = debits.last();
        lemma_front_is_sound(debits);
        assert(is_sound_debit(debits[debits.len() - 1].1));
        assert(records_are_sound(holds, pools, runs, front));
        lemma_debit_figures(debit, Seq::empty(), id);
        assert(sums_fit(holds, pools, runs, front)) by {
            assert forall|u: Seq<char>|
                #![trigger hold_backing(u)]
                total(holds, hold_backing(u)) + total(pools, pool_backing(u)) <= i64::MAX by {}
            assert forall|u: Seq<char>|
                #![trigger hold_spending(u)]
                total(holds, hold_spending(u)) + total(runs, run_spending(u)) + total(
                    front,
                    live_spending(u),
                ) <= i64::MAX by {
                lemma_debit_figures(debit, u, id);
                assert(total(holds, hold_spending(u)) + total(runs, run_spending(u)) + total(
                    debits,
                    live_spending(u),
                ) <= i64::MAX);
            }
            assert forall|u: Seq<char>|
                #![trigger hold_earning(u)]
                total(holds, hold_earning(u)) + total(runs, run_earning(u)) + total(
                    front,
                    live_earning(u),
                ) <= i64::MAX by {
                lemma_debit_figures(debit, u, id);
                assert(total(holds, hold_earning(u)) + total(runs, run_earning(u)) + total(
                    debits,
                    live_earning(u),
                ) <= i64::MAX);
            }
        }
        lemma_debits_tell(a, holds, pools, runs, front);
        let before = debits_replayed(a, found(front));
        let b = debits_replayed(a, found(debits));
        assert(b == debit_replayed(before, id, Some(debit)));
        assert forall|u: Seq<char>| 0 <= #[trigger] amount_in(before.earned, u) by {
            lemma_sums_are_positive(holds, pools, runs, front, u);
        }
        let payer = debit.payer_user_id;
        lemma_sums_are_positive(holds, pools, runs, front, payer);
        lemma_credits_are_positive(debit.credits, payer);
        assert(total(debit.credits, plain_amount()) <= i64::MAX) by {
            assert(paid_in_all(holds, runs, debits) <= i64::MAX);
        }
        assert forall|u: Seq<char>|
            #[trigger] amount_in(before.earned, u) + total(debit.credits, credit_of(u))
                <= i64::MAX by {
            assert(total(holds, hold_earning(u)) + total(runs, run_earning(u)) + total(
                debits,
                live_earning(u),
            ) <= i64::MAX);
        }
        lemma_credits_tell(before, debit.credits, id);
        assert(total(holds, hold_spending(payer)) + total(runs, run_spending(payer)) + total(
            debits,
            live_spending(payer),
        ) <= i64::MAX);
        assert(amount_in(before.spent, payer) + debit.charged_total <= i64::MAX);
        assert forall|u: Seq<char>|
            #[trigger] amount_in(b.held, u) == total(holds, hold_backing(u)) + total(
                pools,
                pool_backing(u),
            ) by {
            assert(amount_in(before.held, u) == total(holds, hold_backing(u)) + total(
                pools,
                pool_backing(u),
            ));
        }
        assert forall|u: Seq<char>|
            #[trigger] amount_in(b.spent, u) == total(holds, hold_spending(u)) + total(
                runs,
                run_spending(u),
            ) + total(debits, live_spending(u)) by {
            assert(amount_in(before.spent, u) == total(holds, hold_spending(u)) + total(
                runs,
                run_spending(u),
            ) + total(front, live_spending(u)));
        }
        assert forall|u: Seq<char>|
            #[trigger] amount_in(b.earned, u) == total(holds, hold_earning(u)) + total(
                runs,
                run_earning(u),
            ) + total(debits, live_earning(u)) by {
            assert(amount_in(before.earned, u) == total(holds, hold_earning(u)) + total(
                runs,
                run_earning(u),
            ) + total(front, live_earning(u)));
        }
        assert forall|p: Seq<char>| p.len() > 0 implies #[trigger] amount_in(b.project_reserved, p)
            == total(holds, project_backing(p)) by {
            assert(amount_in(before.project_reserved, p) == total(holds, project_backing(p)));
        }
        assert forall|p: Seq<char>| p.len() > 0 implies #[trigger] amount_in(b.project_spent, p)
            == total(holds, project_spending(p)) by {
            assert(amount_in(before.project_spent, p) == total(holds, project_spending(p)));
        }
        assert forall|p: Seq<char>| #[trigger] amount_in(b.pool_reserved, p) == total(
            runs,
            slice_backing(p),
        ) by {
            assert(amount_in(before.pool_reserved, p) == total(runs, slice_backing(p)));
        }
    }
}

// ---------------------------------------------------------------- a scan of books

/// Whether a scan shows exactly what books hold.
pub open spec fn shows(scan: Scan, books: Books) -> bool {
    &&& scanned(scan.holds@) == found(books.holds)
    &&& scanned(scan.pools@) == found(books.pools)
    &&& scanned(scan.reservations@) == found(books.reservations)
    &&& scanned(scan.live_debits@) == found(books.live_debits)
    &&& scanned(scan.payouts@) == found(books.payouts)
    &&& raw_of(scan.held@).len() == books.wallets.len()
    &&& raw_of(scan.payout_held@).len() == books.wallets.len()
    &&& raw_of(scan.spent@).len() == books.wallets.len()
    &&& raw_of(scan.earned@).len() == books.wallets.len()
    &&& withdrawables_of(scan.withdrawable@).len() == books.wallets.len()
    &&& forall|i: int|
        0 <= i < books.wallets.len() ==> {
            let (user, wallet) = #[trigger] books.wallets[i];
            &&& raw_of(scan.held@)[i] == (user, decimal(wallet.held as int))
            &&& raw_of(scan.payout_held@)[i] == (user, decimal(wallet.payout_held as int))
            &&& raw_of(scan.spent@)[i] == (user, decimal(wallet.spent as int))
            &&& raw_of(scan.earned@)[i] == (user, decimal(wallet.earned as int))
            &&& withdrawables_of(scan.withdrawable@)[i].user_id == user
            &&& withdrawables_of(scan.withdrawable@)[i].withdrawable == wallet.withdrawable
            &&& withdrawables_of(scan.withdrawable@)[i].available == wallet.balance
        }
    &&& scan.budgets@ == books.budgets
}

/// Where the records of books are sound, the replay of a scan of them finds no fault, and what it
/// expects of every counter is what the records add up to: a payer's spending is what their
/// settled holds, their settled runs and their live debits took, and a user's earnings are what
/// these paid them.
pub proof fn law_the_replay_expects_what_the_records_say(scan: Scan, books: Books, user: Seq<char>)
    requires
        shows(scan, books),
        records_are_sound(books.holds, books.pools, books.reservations, books.live_debits),
        sums_fit(books.holds, books.pools, books.reservations, books.live_debits),
    ensures
        records_replayed(scan).findings.len() == 0,
        amount_in(records_replayed(scan).held, user) == backing(books, user),
        amount_in(records_replayed(scan).spent, user) == spending(books, user),
        amount_in(records_replayed(scan).earned, user) == earning(books, user),
        amount_in(records_replayed(scan).pool_reserved, user) == total(
            books.reservations,
            slice_backing(user),
        ),
        user.len() > 0 ==> amount_in(records_replayed(scan).project_reserved, user) == total(
            books.holds,
            project_backing(user),
        ),
        user.len() > 0 ==> amount_in(records_replayed(scan).project_spent, user) == total(
            books.holds,
            project_spending(user),
        ),
{
    lemma_scan_tells(scan, books);
    let a = records_replayed(scan);
    assert(amount_in(a.held, user) == total(books.holds, hold_backing(user)) + total(
        books.pools,
        pool_backing(user),
    ));
    assert(amount_in(a.pool_reserved, user) == total(books.reservations, slice_backing(user)));
}

/// A scan of books whose records are sound tells what the records add up to.
#[verifier::rlimit(40)]
pub proof fn lemma_scan_tells(scan: Scan, books: Books)
    requires
        shows(scan, books),
        records_are_sound(books.holds, books.pools, books.reservations, books.live_debits),
        sums_fit(books.holds, books.pools, books.reservations, books.live_debits),
    ensures
        tells(
            records_replayed(scan),
            books.holds,
            books.pools,
            books.reservations,
            books.live_debits,
        ),
{
    let (holds, pools, runs, debits) = (
        books.holds,
        books.pools,
        books.reservations,
        books.live_debits,
    );
    let no_pools = Seq::<(Seq<char>, PoolState)>::empty();
    let no_runs = Seq::<(Seq<char>, ReservationState)>::empty();
    let no_debits = Seq::<(Seq<char>, LiveDebitState)>::empty();
    assert(records_are_sound(holds, no_pools, no_runs, no_debits));
    assert(records_are_sound(holds, pools, no_runs, no_debits));
    assert(records_are_sound(holds, pools, runs, no_debits));
    lemma_sums_are_positive(holds, pools, runs, debits, Seq::empty());
    assert forall|u: Seq<char>|
        #![trigger hold_backing(u)]
        total(holds, hold_backing(u)) + total(no_pools, pool_backing(u)) <= i64::MAX by {
        lemma_sums_are_positive(holds, pools, runs, debits, u);
        assert(total(holds, hold_backing(u)) + total(pools, pool_backing(u)) <= i64::MAX);
    }
    assert forall|u: Seq<char>|
        #![trigger hold_spending(u)]
        total(holds, hold_spending(u)) + total(no_runs, run_spending(u)) + total(
            no_debits,
            live_spending(u),
        ) <= i64::MAX && total(holds, hold_spending(u)) + total(runs, run_spending(u)) + total(
            no_debits,
            live_spending(u),
        ) <= i64::MAX by {
        lemma_sums_are_positive(holds, pools, runs, debits, u);
        assert(total(holds, hold_spending(u)) + total(runs, run_spending(u)) + total(
            debits,
            live_spending(u),
        ) <= i64::MAX);
    }
    assert forall|u: Seq<char>|
        #![trigger hold_earning(u)]
        total(holds, hold_earning(u)) + total(no_runs, run_earning(u)) + total(
            no_debits,
            live_earning(u),
        ) <= i64::MAX && total(holds, hold_earning(u)) + total(runs, run_earning(u)) + total(
            no_debits,
            live_earning(u),
        ) <= i64::MAX by {
        lemma_sums_are_positive(holds, pools, runs, debits, u);
        assert(total(holds, hold_earning(u)) + total(runs, run_earning(u)) + total(
            debits,
            live_earning(u),
        ) <= i64::MAX);
    }
    assert(sums_fit(holds, no_pools, no_runs, no_debits));
    assert(sums_fit(holds, pools, no_runs, no_debits));
    assert(sums_fit(holds, pools, runs, no_debits));
    lemma_holds_tell(holds);
    let a = holds_replayed(fresh_audit(), found(holds));
    lemma_pools_tell(a, holds, pools);
    let b = pools_replayed(a, found(pools));
    lemma_runs_tell(b, holds, pools, runs);
    lemma_debits_tell(reservations_replayed(b, found(runs)), holds, pools, runs, debits);
}

} // verus!
