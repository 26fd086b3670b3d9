//! That a reconciliation finds each record that cannot be read or does not add up, each pool,
//! budget and withdrawable amount that disagrees with the records.
use vstd::prelude::*;

use crate::finance::audit_laws::{line_sum, lines_pay};
use crate::finance::ledger::{
    Books, HoldState, Line, LiveDebitState, PayoutState, PoolState, ReservationState, Wallet,
};
use crate::finance::mismatch_laws::{
    budget_figure, extends, law_sorting_once_keeps_every_text, lemma_clamping_adds,
    lemma_key_is_listed, lemma_projects_add, lemma_steps, lemma_still_tells,
    lemma_withdrawables_add, steps_of, tells_of, withdrawable,
};
use crate::finance::reconcile::{
    credit_user, credits_replayed, debit_replayed, debits_replayed, fresh_audit, hold_replayed,
    holds_replayed, known_projects, lines_replayed, payout_replayed, payouts_replayed,
    pool_replayed, pools_replayed, projects_compared, reconciled, reservation_replayed,
    reservations_replayed, reserved_compared, scanned, withdrawables_checked, withdrawables_of,
    Audit, Finding, Scan, WithdrawableState,
};
use crate::finance::reconcile_laws::{
    lemma_scan_tells, paid_in_all, project_backing, project_spending, records_are_sound, shows,
    slice_backing, sums_fit,
};
use crate::finance::settlement::{amount_in, keys_of, plain_amount};
use crate::json::Tree;
use crate::table::{lookup, total, Rows};

verus! {

/// Whether a finding is about a record or user.
pub open spec fn is_about(findings: Seq<Finding>, reference: Seq<char>) -> bool {
    exists|i: int| 0 <= i < findings.len() && (#[trigger] findings[i]).reference == reference
}

proof fn lemma_still_about(a: Seq<Finding>, b: Seq<Finding>, reference: Seq<char>)
    requires
        extends(a, b),
        is_about(a, reference),
    ensures
        is_about(b, reference),
{
    let i = choose|i: int| 0 <= i < a.len() && (#[trigger] a[i]).reference == reference;
    assert(b[i] == a[i]);
}

proof fn lemma_lines_extend(
    a: Audit,
    lines: Seq<Line>,
    code: Seq<char>,
    reference: Seq<char>,
    detail: Seq<char>,
)
    ensures
        extends(a.findings, lines_replayed(a, lines, code, reference, detail).0.findings),
        is_about(lines_replayed(a, lines, code, reference, detail).0.findings, reference) || (
        lines_pay(lines) && line_sum(lines) >= 0 && (line_sum(lines) <= i64::MAX
            ==> lines_replayed(a, lines, code, reference, detail).1 == line_sum(lines))),
    decreases lines.len(),
{
    if lines.len() > 0 {
        let front = lines.drop_last();
        lemma_lines_extend(a, front, code, reference, detail);
        let before = lines_replayed(a, front, code, reference, detail).0;
        let after = lines_replayed(a, lines, code, reference, detail).0;
        if is_about(before.findings, reference) {
            lemma_still_about(before.findings, after.findings, reference);
        } else if after.findings != before.findings {
            assert(after.findings[before.findings.len() as int].reference == reference);
        } else {
            assert(after.findings.len() == before.findings.len());
            assert forall|i: int| 0 <= i < lines.len() implies (#[trigger] lines[i]).amount > 0
                && lines[i].user_id.len() > 0 by {
                if i < front.len() {
                    assert(front[i] == lines[i]);
                }
            }
        }
    }
}

proof fn lemma_credits_extend(a: Audit, credits: Rows<i64>, id: Seq<char>)
    ensures
        extends(a.findings, credits_replayed(a, credits, id).0.findings),
        is_about(credits_replayed(a, credits, id).0.findings, id) || (total(
            credits,
            plain_amount(),
        ) >= 0 && (total(credits, plain_amount()) <= i64::MAX ==> credits_replayed(a, credits, id).1
            == total(credits, plain_amount())) && forall|i: int|
            0 <= i < credits.len() ==> (#[trigger] credits[i]).1 > 0 && credit_user(
                credits[i].0,
            ).len() > 0),
    decreases credits.len(),
{
    if credits.len() > 0 {
        let front = credits.drop_last();
        lemma_credits_extend(a, front, id);
        let before = credits_replayed(a, front, id).0;
        let after = credits_replayed(a, credits, id).0;
        if is_about(before.findings, id) {
            lemma_still_about(before.findings, after.findings, id);
        } else if after.findings != before.findings {
            assert(after.findings[before.findings.len() as int].reference == id);
        } else {
            assert(after.findings.len() == before.findings.len());
            assert forall|i: int| 0 <= i < credits.len() implies (#[trigger] credits[i]).1 > 0
                && credit_user(credits[i].0).len() > 0 by {
                if i < front.len() {
                    assert(front[i] == credits[i]);
                }
            }
        }
    }
}

// ---------------------------------------------------------------- one record

/// A hold that cannot be read is found, and so is one without a payer or an amount, one of an
/// unknown status, an active one of which something is gone, a settled one whose parts do not add
/// up to what it held or whose lines do not add up to what it cost, and one given up of which not
/// everything went back.
pub proof fn law_a_faulty_hold_is_found(a: Audit, id: Seq<char>, record: Option<HoldState>)
    requires
        match record {
            None => true,
            Some(hold) => {
                let whole = hold.remaining_amount == hold.max_amount;
                let paid = hold.remaining_amount == 0 && hold.actual_amount >= 0
                    && hold.refunded_amount >= 0 && hold.actual_amount + hold.refunded_amount
                    == hold.max_amount && lines_pay(hold.settlement_lines) && line_sum(
                    hold.settlement_lines,
                ) == hold.actual_amount;
                let back = hold.remaining_amount == 0 && hold.refunded_amount == hold.max_amount;
                &&& line_sum(hold.settlement_lines) <= i64::MAX
                &&& {
                    ||| hold.payer_user_id.len() == 0
                    ||| hold.max_amount <= 0
                    ||| hold.status == "open"@ && !whole
                    ||| hold.status == "running"@ && !whole
                    ||| hold.status == "settled"@ && !paid
                    ||| hold.status == "released"@ && !back
                    ||| hold.status == "expired"@ && !back
                    ||| hold.status != "open"@ && hold.status != "running"@ && hold.status
                        != "settled"@ && hold.status != "released"@ && hold.status != "expired"@
                }
            },
        },
    ensures
        is_about(hold_replayed(a, id, record).findings, id),
{
    lemma_hold_extends(a, id, record);
    crate::finance::reconcile_laws::lemma_words();
    let n = a.findings.len() as int;
    let after = hold_replayed(a, id, record);
    match record {
        None => {
            assert(after.findings[n].reference == id);
        },
        Some(hold) => {
            lemma_lines_extend(
                a,
                hold.settlement_lines,
                "settlement.line_invalid"@,
                id,
                "invalid beneficiary settlement line"@,
            );
            let replayed = lines_replayed(
                a,
                hold.settlement_lines,
                "settlement.line_invalid"@,
                id,
                "invalid beneficiary settlement line"@,
            );
            if hold.payer_user_id.len() > 0 && hold.max_amount > 0 && hold.status == "settled"@
                && hold.remaining_amount == 0 && hold.actual_amount >= 0 && hold.refunded_amount
                >= 0 && hold.actual_amount + hold.refunded_amount == hold.max_amount {
                assert(extends(replayed.0.findings, after.findings));
                if is_about(replayed.0.findings, id) {
                    lemma_still_about(replayed.0.findings, after.findings, id);
                } else {
                    assert(replayed.1 != hold.actual_amount);
                    assert(after.findings[replayed.0.findings.len() as int].reference == id);
                }
            } else {
                assert(after.findings[n].reference == id);
            }
        },
    }
}

proof fn lemma_hold_extends(a: Audit, id: Seq<char>, record: Option<HoldState>)
    ensures
        extends(a.findings, hold_replayed(a, id, record).findings),
{
    if let Some(hold) = record {
        lemma_lines_extend(
            a,
            hold.settlement_lines,
            "settlement.line_invalid"@,
            id,
            "invalid beneficiary settlement line"@,
        );
    }
}

/// A pool that cannot be read is found, and so is one without a payer, one with a negative
/// amount, and one whose parts do not add up to what was put into it.
pub proof fn law_a_faulty_pool_is_found(a: Audit, id: Seq<char>, record: Option<PoolState>)
    requires
        match record {
            None => true,
            Some(pool) => {
                ||| pool.payer_user_id.len() == 0
                ||| pool.max_amount < 0
                ||| pool.remaining < 0
                ||| pool.reserved < 0
                ||| pool.spent < 0
                ||| pool.refunded < 0
                ||| pool.remaining + pool.reserved + pool.spent + pool.refunded != pool.max_amount
            },
        },
    ensures
        is_about(pool_replayed(a, id, record).findings, id),
{
    assert(pool_replayed(a, id, record).findings[a.findings.len() as int].reference == id);
}

/// A run that cannot be read is found, and so is one without a payer or a pool, one of a negative
/// amount, one of an unknown status, and a settled one whose lines do not add up to what it cost.
pub proof fn law_a_faulty_run_is_found(a: Audit, id: Seq<char>, record: Option<ReservationState>)
    requires
        match record {
            None => true,
            Some(run) => {
                &&& line_sum(run.settlement_lines) <= i64::MAX
                &&& {
                    ||| run.payer_user_id.len() == 0
                    ||| run.pool_id.len() == 0
                    ||| run.amount < 0
                    ||| run.status == "settled"@ && (run.actual_amount < 0 || !lines_pay(
                        run.settlement_lines,
                    ) || line_sum(run.settlement_lines) != run.actual_amount)
                    ||| run.status != "reserved"@ && run.status != "settled"@ && run.status
                        != "released"@
                }
            },
        },
    ensures
        is_about(reservation_replayed(a, id, record).findings, id),
{
    lemma_run_extends(a, id, record);
    crate::finance::reconcile_laws::lemma_words();
    let n = a.findings.len() as int;
    let after = reservation_replayed(a, id, record);
    match record {
        None => {
            assert(after.findings[n].reference == id);
        },
        Some(run) => {
            lemma_lines_extend(
                a,
                run.settlement_lines,
                "reservation.line_invalid"@,
                id,
                "invalid pool settlement line"@,
            );
            let replayed = lines_replayed(
                a,
                run.settlement_lines,
                "reservation.line_invalid"@,
                id,
                "invalid pool settlement line"@,
            );
            if run.payer_user_id.len() > 0 && run.pool_id.len() > 0 && run.amount >= 0
                && run.status == "settled"@ && run.actual_amount >= 0 {
                assert(extends(replayed.0.findings, after.findings));
                if is_about(replayed.0.findings, id) {
                    lemma_still_about(replayed.0.findings, after.findings, id);
                } else {
                    assert(replayed.1 != run.actual_amount);
                    assert(after.findings[replayed.0.findings.len() as int].reference == id);
                }
            } else {
                assert(after.findings[n].reference == id);
            }
        },
    }
}

proof fn lemma_run_extends(a: Audit, id: Seq<char>, record: Option<ReservationState>)
    ensures
        extends(a.findings, reservation_replayed(a, id, record).findings),
{
    if let Some(run) = record {
        lemma_lines_extend(
            a,
            run.settlement_lines,
            "reservation.line_invalid"@,
            id,
            "invalid pool settlement line"@,
        );
    }
}

/// A live debit that cannot be read is found, and so is one without a payer, one of a negative
/// amount, one with a credit of nothing or to nobody, and one whose credits do not add up to what
/// was charged.
pub proof fn law_a_faulty_debit_is_found(a: Audit, id: Seq<char>, record: Option<LiveDebitState>)
    requires
        match record {
            None => true,
            Some(debit) => {
                &&& total(debit.credits, plain_amount()) <= i64::MAX
                &&& {
                    ||| debit.payer_user_id.len() == 0
                    ||| debit.charged_total < 0
                    ||| total(debit.credits, plain_amount()) != debit.charged_total
                    ||| exists|i: int|
                        0 <= i < debit.credits.len() && ((#[trigger] debit.credits[i]).1 <= 0
                            || credit_user(debit.credits[i].0).len() == 0)
                }
            },
        },
    ensures
        is_about(debit_replayed(a, id, record).findings, id),
{
    let n = a.findings.len() as int;
    let after = debit_replayed(a, id, record);
    match record {
        None => {
            assert(after.findings[n].reference == id);
        },
        Some(debit) => {
            lemma_credits_extend(a, debit.credits, id);
            let replayed = credits_replayed(a, debit.credits, id);
            if debit.payer_user_id.len() > 0 && debit.charged_total >= 0 {
                assert(extends(replayed.0.findings, after.findings));
                if is_about(replayed.0.findings, id) {
                    lemma_still_about(replayed.0.findings, after.findings, id);
                } else {
                    assert(replayed.1 != debit.charged_total);
                    assert(after.findings[replayed.0.findings.len() as int].reference == id);
                }
            } else {
                assert(after.findings[n].reference == id);
            }
        },
    }
}

proof fn lemma_debit_extends(a: Audit, id: Seq<char>, record: Option<LiveDebitState>)
    ensures
        extends(a.findings, debit_replayed(a, id, record).findings),
{
    if let Some(debit) = record {
        lemma_credits_extend(a, debit.credits, id);
    }
}

/// A payout that cannot be read is found, and so is a pending one that goes to nobody or asks for
/// nothing.
pub proof fn law_a_faulty_payout_is_found(a: Audit, id: Seq<char>, record: Option<PayoutState>)
    requires
        match record {
            None => true,
            Some(payout) => payout.status == "pending"@ && (payout.user_id.len() == 0
                || payout.amount <= 0),
        },
    ensures
        is_about(payout_replayed(a, id, record).findings, id),
{
    assert(payout_replayed(a, id, record).findings[a.findings.len() as int].reference == id);
}

// ---------------------------------------------------------------- all records

proof fn lemma_replays_extend(
    a: Audit,
    holds: Rows<Option<HoldState>>,
    pools: Rows<Option<PoolState>>,
    runs: Rows<Option<ReservationState>>,
    debits: Rows<Option<LiveDebitState>>,
)
    ensures
        extends(a.findings, holds_replayed(a, holds).findings),
        extends(a.findings, pools_replayed(a, pools).findings),
        extends(a.findings, reservations_replayed(a, runs).findings),
        extends(a.findings, debits_replayed(a, debits).findings),
    decreases holds.len() + pools.len() + runs.len() + debits.len(),
{
    if holds.len() > 0 {
        lemma_replays_extend(a, holds.drop_last(), pools, runs, debits);
        lemma_hold_extends(
            holds_replayed(a, holds.drop_last()),
            holds.last().0,
            holds.last().1,
        );
    } else if pools.len() > 0 {
        lemma_replays_extend(a, holds, pools.drop_last(), runs, debits);
    } else if runs.len() > 0 {
        lemma_replays_extend(a, holds, pools, runs.drop_last(), debits);
        lemma_run_extends(
            reservations_replayed(a, runs.drop_last()),
            runs.last().0,
            runs.last().1,
        );
    } else if debits.len() > 0 {
        lemma_replays_extend(a, holds, pools, runs, debits.drop_last());
        lemma_debit_extends(
            debits_replayed(a, debits.drop_last()),
            debits.last().0,
            debits.last().1,
        );
    }
}

proof fn lemma_unreadable_holds(a: Audit, rows: Rows<Option<HoldState>>, i: int)
    requires
        0 <= i < rows.len(),
        rows[i].1 is None,
    ensures
        tells_of(holds_replayed(a, rows).findings, "hold.unreadable"@, rows[i].0),
    decreases rows.len(),
{
    let front = rows.drop_last();
    let before = holds_replayed(a, front);
    let after = holds_replayed(a, rows);
    lemma_hold_extends(before, rows.last().0, rows.last().1);
    if i < front.len() {
        assert(front[i] == rows[i]);
        lemma_unreadable_holds(a, front, i);
        lemma_still_tells(before.findings, after.findings, "hold.unreadable"@, rows[i].0);
    } else {
        assert(after.findings[before.findings.len() as int].code == "hold.unreadable"@);
    }
}

proof fn lemma_unreadable_pools(a: Audit, rows: Rows<Option<PoolState>>, i: int)
    requires
        0 <= i < rows.len(),
        rows[i].1 is None,
    ensures
        tells_of(pools_replayed(a, rows).findings, "pool.unreadable"@, rows[i].0),
    decreases rows.len(),
{
    let front = rows.drop_last();
    let before = pools_replayed(a, front);
    let after = pools_replayed(a, rows);
    if i < front.len() {
        assert(front[i] == rows[i]);
        lemma_unreadable_pools(a, front, i);
        lemma_still_tells(before.findings, after.findings, "pool.unreadable"@, rows[i].0);
    } else {
        assert(after.findings[before.findings.len() as int].code == "pool.unreadable"@);
    }
}

proof fn lemma_unreadable_runs(a: Audit, rows: Rows<Option<ReservationState>>, i: int)
    requires
        0 <= i < rows.len(),
        rows[i].1 is None,
    ensures
        tells_of(reservations_replayed(a, rows).findings, "reservation.unreadable"@, rows[i].0),
    decreases rows.len(),
{
    let front = rows.drop_last();
    let before = reservations_replayed(a, front);
    let after = reservations_replayed(a, rows);
    lemma_run_extends(before, rows.last().0, rows.last().1);
    if i < front.len() {
        assert(front[i] == rows[i]);
        lemma_unreadable_runs(a, front, i);
        lemma_still_tells(before.findings, after.findings, "reservation.unreadable"@, rows[i].0);
    } else {
        assert(after.findings[before.findings.len() as int].code == "reservation.unreadable"@);
    }
}

proof fn lemma_unreadable_debits(a: Audit, rows: Rows<Option<LiveDebitState>>, i: int)
    requires
        0 <= i < rows.len(),
        rows[i].1 is None,
    ensures
        tells_of(debits_replayed(a, rows).findings, "livedebit.unreadable"@, rows[i].0),
    decreases rows.len(),
{
    let front = rows.drop_last();
    let before = debits_replayed(a, front);
    let after = debits_replayed(a, rows);
    lemma_debit_extends(before, rows.last().0, rows.last().1);
    if i < front.len() {
        assert(front[i] == rows[i]);
        lemma_unreadable_debits(a, front, i);
        lemma_still_tells(before.findings, after.findings, "livedebit.unreadable"@, rows[i].0);
    } else {
        assert(after.findings[before.findings.len() as int].code == "livedebit.unreadable"@);
    }
}

proof fn lemma_unreadable_payouts(a: Audit, rows: Rows<Option<PayoutState>>, i: int)
    requires
        0 <= i < rows.len(),
        rows[i].1 is None,
    ensures
        tells_of(payouts_replayed(a, rows).findings, "payout.unreadable"@, rows[i].0),
    decreases rows.len(),
{
    let front = rows.drop_last();
    let before = payouts_replayed(a, front);
    let after = payouts_replayed(a, rows);
    if i < front.len() {
        assert(front[i] == rows[i]);
        lemma_unreadable_payouts(a, front, i);
        lemma_still_tells(before.findings, after.findings, "payout.unreadable"@, rows[i].0);
    } else {
        assert(after.findings[before.findings.len() as int].code == "payout.unreadable"@);
    }
}

/// A reconciliation names every record of a scan that cannot be read.
pub proof fn law_every_unreadable_record_is_found(scan: Scan, i: int)
    ensures
        0 <= i < scanned(scan.holds@).len() && scanned(scan.holds@)[i].1 is None ==> tells_of(
            reconciled(scan).findings,
            "hold.unreadable"@,
            scanned(scan.holds@)[i].0,
        ),
        0 <= i < scanned(scan.pools@).len() && scanned(scan.pools@)[i].1 is None ==> tells_of(
            reconciled(scan).findings,
            "pool.unreadable"@,
            scanned(scan.pools@)[i].0,
        ),
        0 <= i < scanned(scan.reservations@).len() && scanned(scan.reservations@)[i].1 is None
            ==> tells_of(
            reconciled(scan).findings,
            "reservation.unreadable"@,
            scanned(scan.reservations@)[i].0,
        ),
        0 <= i < scanned(scan.live_debits@).len() && scanned(scan.live_debits@)[i].1 is None
            ==> tells_of(
            reconciled(scan).findings,
            "livedebit.unreadable"@,
            scanned(scan.live_debits@)[i].0,
        ),
        0 <= i < scanned(scan.payouts@).len() && scanned(scan.payouts@)[i].1 is None ==> tells_of(
            reconciled(scan).findings,
            "payout.unreadable"@,
            scanned(scan.payouts@)[i].0,
        ),
{
    lemma_steps(scan);
    let s = steps_of(scan);
    let r = reconciled(scan).findings;
    let (holds, pools) = (scanned(scan.holds@), scanned(scan.pools@));
    let (runs, debits) = (scanned(scan.reservations@), scanned(scan.live_debits@));
    let payouts = scanned(scan.payouts@);
    let a = holds_replayed(fresh_audit(), holds);
    let b = pools_replayed(a, pools);
    let c = reservations_replayed(b, runs);
    lemma_replays_extend(a, holds, pools, runs, debits);
    lemma_replays_extend(b, holds, pools, runs, debits);
    lemma_replays_extend(c, holds, pools, runs, debits);
    assert(extends(c.findings, r));
    assert(extends(b.findings, r));
    assert(extends(a.findings, r));
    if 0 <= i < holds.len() && holds[i].1 is None {
        lemma_unreadable_holds(fresh_audit(), holds, i);
        lemma_still_tells(a.findings, r, "hold.unreadable"@, holds[i].0);
    }
    if 0 <= i < pools.len() && pools[i].1 is None {
        lemma_unreadable_pools(a, pools, i);
        lemma_still_tells(b.findings, r, "pool.unreadable"@, pools[i].0);
    }
    if 0 <= i < runs.len() && runs[i].1 is None {
        lemma_unreadable_runs(b, runs, i);
        lemma_still_tells(c.findings, r, "reservation.unreadable"@, runs[i].0);
    }
    if 0 <= i < debits.len() && debits[i].1 is None {
        lemma_unreadable_debits(c, debits, i);
        lemma_still_tells(s.records.findings, r, "livedebit.unreadable"@, debits[i].0);
    }
    if 0 <= i < payouts.len() && payouts[i].1 is None {
        lemma_unreadable_payouts(s.held, payouts, i);
        lemma_still_tells(s.payouts.findings, r, "payout.unreadable"@, payouts[i].0);
    }
}

// ---------------------------------------------------------------- pools, withdrawals, budgets

proof fn lemma_reserved_tells(a: Audit, rows: Rows<Option<PoolState>>, i: int)
    requires
        0 <= i < rows.len(),
        rows[i].1 is Some,
        rows[i].1->0.reserved != amount_in(a.pool_reserved, rows[i].0),
    ensures
        tells_of(reserved_compared(a, rows).findings, "pool.reserved_mismatch"@, rows[i].0),
    decreases rows.len(),
{
    let front = rows.drop_last();
    let before = reserved_compared(a, front);
    let after = reserved_compared(a, rows);
    if i < front.len() {
        assert(front[i] == rows[i]);
        lemma_reserved_tells(a, front, i);
        lemma_still_tells(before.findings, after.findings, "pool.reserved_mismatch"@, rows[i].0);
    } else {
        assert(after.findings[before.findings.len() as int].code == "pool.reserved_mismatch"@);
    }
}

/// Where the records of books are sound, a pool that does not keep reserved exactly what its runs
/// reserved is found.
pub proof fn law_a_wrong_reserved_amount_is_found(scan: Scan, books: Books, i: int)
    requires
        shows(scan, books),
        records_are_sound(books.holds, books.pools, books.reservations, books.live_debits),
        sums_fit(books.holds, books.pools, books.reservations, books.live_debits),
        0 <= i < books.pools.len(),
        books.pools[i].1.reserved != total(books.reservations, slice_backing(books.pools[i].0)),
    ensures
        tells_of(reconciled(scan).findings, "pool.reserved_mismatch"@, books.pools[i].0),
{
    lemma_scan_tells(scan, books);
    lemma_steps(scan);
    let s = steps_of(scan);
    let id = books.pools[i].0;
    assert(amount_in(s.records.pool_reserved, id) == total(books.reservations, slice_backing(id)));
    assert(scanned(scan.pools@)[i] == (id, Some(books.pools[i].1)));
    lemma_reserved_tells(s.records, scanned(scan.pools@), i);
    lemma_still_tells(
        s.pools.findings,
        reconciled(scan).findings,
        "pool.reserved_mismatch"@,
        id,
    );
}

proof fn lemma_withdrawable_tells(a: Audit, rows: Seq<WithdrawableState>, i: int)
    requires
        0 <= i < rows.len(),
        rows[i].withdrawable < 0 || match rows[i].available {
            Some(available) => rows[i].withdrawable > available,
            None => true,
        },
    ensures
        tells_of(withdrawables_checked(a, rows).0.findings, "withdrawable.invalid"@, rows[i].user_id),
    decreases rows.len(),
{
    let front = rows.drop_last();
    let before = withdrawables_checked(a, front).0;
    let after = withdrawables_checked(a, rows).0;
    let user = rows[i].user_id;
    if i < front.len() {
        assert(front[i] == rows[i]);
        lemma_withdrawable_tells(a, front, i);
        lemma_still_tells(before.findings, after.findings, "withdrawable.invalid"@, user);
    } else {
        assert(after.findings[before.findings.len() as int].code == "withdrawable.invalid"@);
    }
}

/// A wallet that may withdraw less than nothing, or more than it has, is found.
pub proof fn law_a_wrong_withdrawable_amount_is_found(scan: Scan, books: Books, i: int)
    requires
        shows(scan, books),
        0 <= i < books.wallets.len(),
        books.wallets[i].1.withdrawable < 0 || match books.wallets[i].1.balance {
            Some(balance) => books.wallets[i].1.withdrawable > balance,
            None => true,
        },
    ensures
        tells_of(reconciled(scan).findings, "withdrawable.invalid"@, books.wallets[i].0),
{
    lemma_steps(scan);
    let s = steps_of(scan);
    let rows = withdrawables_of(scan.withdrawable@);
    let (user, wallet) = books.wallets[i];
    assert(rows[i].user_id == user);
    lemma_withdrawable_tells(s.payout_held, rows, i);
    lemma_withdrawables_add(s.payout_held, rows);
    lemma_still_tells(
        withdrawables_checked(s.payout_held, rows).0.findings,
        s.withdrawable.findings,
        "withdrawable.invalid"@,
        user,
    );
    lemma_still_tells(
        s.withdrawable.findings,
        reconciled(scan).findings,
        "withdrawable.invalid"@,
        user,
    );
}

proof fn lemma_withdrawable_sum(a: Audit, rows: Seq<WithdrawableState>, wallets: Rows<Wallet>)
    requires
        rows.len() == wallets.len(),
        forall|i: int|
            0 <= i < wallets.len() ==> rows[i].withdrawable == (
            #[trigger] wallets[i]).1.withdrawable && wallets[i].1.withdrawable >= 0,
        total(wallets, withdrawable()) <= i64::MAX,
    ensures
        withdrawables_checked(a, rows).1 == total(wallets, withdrawable()),
        total(wallets, withdrawable()) >= 0,
    decreases rows.len(),
{
    if rows.len() > 0 {
        let front = wallets.drop_last();
        assert forall|i: int| 0 <= i < front.len() implies rows.drop_last()[i].withdrawable == (
        #[trigger] front[i]).1.withdrawable && front[i].1.withdrawable >= 0 by {
            assert(front[i] == wallets[i]);
        }
        let last = wallets[wallets.len() - 1].1;
        assert(last.withdrawable >= 0);
        lemma_withdrawable_sum(a, rows.drop_last(), front);
    }
}

/// Where the records of books are sound, it is found when the wallets may withdraw more together
/// than was ever paid.
pub proof fn law_unbacked_withdrawals_are_found(scan: Scan, books: Books)
    requires
        shows(scan, books),
        records_are_sound(books.holds, books.pools, books.reservations, books.live_debits),
        sums_fit(books.holds, books.pools, books.reservations, books.live_debits),
        forall|i: int|
            0 <= i < books.wallets.len() ==> (#[trigger] books.wallets[i]).1.withdrawable >= 0,
        paid_in_all(books.holds, books.reservations, books.live_debits) < total(
            books.wallets,
            withdrawable(),
        ) <= i64::MAX,
    ensures
        tells_of(reconciled(scan).findings, "withdrawable.unbacked_total"@, Seq::empty()),
{
    lemma_scan_tells(scan, books);
    lemma_steps(scan);
    let s = steps_of(scan);
    let rows = withdrawables_of(scan.withdrawable@);
    let w = books.wallets;
    assert forall|i: int| 0 <= i < w.len() implies rows[i].withdrawable == (
    #[trigger] w[i]).1.withdrawable && w[i].1.withdrawable >= 0 by {
        let (user, wallet) = w[i];
    }
    lemma_withdrawable_sum(s.payout_held, rows, w);
    lemma_clamping_adds(s.payout_held.earned);
    let before = withdrawables_checked(s.payout_held, rows).0;
    assert(s.withdrawable.findings[before.findings.len() as int].code
        == "withdrawable.unbacked_total"@);
    lemma_still_tells(
        s.withdrawable.findings,
        reconciled(scan).findings,
        "withdrawable.unbacked_total"@,
        Seq::empty(),
    );
}

proof fn lemma_project_tells(
    a: Audit,
    projects: Seq<Seq<char>>,
    budgets: Rows<Tree>,
    project: Seq<char>,
)
    requires
        projects.contains(project),
    ensures
        budget_figure(budgets, project, "reservedMinor"@) != amount_in(a.project_reserved, project)
            ==> tells_of(
            projects_compared(a, projects, budgets).findings,
            "project.reserved_mismatch"@,
            project,
        ),
        budget_figure(budgets, project, "spentMinor"@) < amount_in(a.project_spent, project)
            ==> tells_of(
            projects_compared(a, projects, budgets).findings,
            "project.spent_undercount"@,
            project,
        ),
    decreases projects.len(),
{
    let front = projects.drop_last();
    let before = projects_compared(a, front, budgets);
    let after = projects_compared(a, projects, budgets);
    lemma_projects_add(a, front, budgets);
    let n = before.findings.len() as int;
    if projects.last() == project {
        if budget_figure(budgets, project, "reservedMinor"@) != amount_in(
            a.project_reserved,
            project,
        ) {
            assert(after.findings[n].code == "project.reserved_mismatch"@);
        }
        if budget_figure(budgets, project, "spentMinor"@) < amount_in(a.project_spent, project) {
            assert(after.findings[after.findings.len() - 1].code == "project.spent_undercount"@);
        }
    } else {
        let i = choose|i: int| 0 <= i < projects.len() && projects[i] == project;
        assert(front[i] == project);
        lemma_project_tells(a, front, budgets, project);
        assert(extends(before.findings, after.findings));
        if tells_of(before.findings, "project.reserved_mismatch"@, project) {
            lemma_still_tells(
                before.findings,
                after.findings,
                "project.reserved_mismatch"@,
                project,
            );
        }
        if tells_of(before.findings, "project.spent_undercount"@, project) {
            lemma_still_tells(
                before.findings,
                after.findings,
                "project.spent_undercount"@,
                project,
            );
        }
    }
}

/// Where the records of books are sound, a budget that does not reserve exactly what the active
/// holds of its project set aside is found, and so is one that counts less spent than its settled
/// holds took.
pub proof fn law_a_wrong_budget_is_found(scan: Scan, books: Books, project: Seq<char>)
    requires
        shows(scan, books),
        records_are_sound(books.holds, books.pools, books.reservations, books.live_debits),
        sums_fit(books.holds, books.pools, books.reservations, books.live_debits),
        project.len() > 0,
    ensures
        budget_figure(books.budgets, project, "reservedMinor"@) != total(
            books.holds,
            project_backing(project),
        ) ==> tells_of(reconciled(scan).findings, "project.reserved_mismatch"@, project),
        0 <= budget_figure(books.budgets, project, "spentMinor"@) < total(
            books.holds,
            project_spending(project),
        ) ==> tells_of(reconciled(scan).findings, "project.spent_undercount"@, project),
{
    lemma_scan_tells(scan, books);
    lemma_steps(scan);
    let s = steps_of(scan);
    let a = s.earned;
    let list = keys_of(a.project_reserved) + keys_of(a.project_spent) + keys_of(books.budgets);
    assert(amount_in(a.project_reserved, project) == total(books.holds, project_backing(project)));
    assert(amount_in(a.project_spent, project) == total(books.holds, project_spending(project)));
    lemma_key_is_listed(a.project_reserved, project);
    lemma_key_is_listed(a.project_spent, project);
    lemma_key_is_listed(books.budgets, project);
    law_sorting_once_keeps_every_text(list, project);
    if lookup(a.project_reserved, project) is Some {
        let k = keys_of(a.project_reserved);
        let i = choose|i: int| 0 <= i < k.len() && k[i] == project;
        assert(list[i] == project);
    } else if lookup(a.project_spent, project) is Some {
        let k = keys_of(a.project_spent);
        let i = choose|i: int| 0 <= i < k.len() && k[i] == project;
        assert(list[keys_of(a.project_reserved).len() + i] == project);
    } else if lookup(books.budgets, project) is Some {
        let k = keys_of(books.budgets);
        let i = choose|i: int| 0 <= i < k.len() && k[i] == project;
        assert(list[keys_of(a.project_reserved).len() + keys_of(a.project_spent).len() + i]
            == project);
    }
    if list.contains(project) {
        lemma_project_tells(a, known_projects(a, books.budgets), books.budgets, project);
    }
}

} // verus!
