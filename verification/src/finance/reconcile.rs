//! Reconciliation: replaying every finance record and comparing the stored counters.
use vstd::prelude::*;
use vstd::string::StringExecFns;

use crate::decimal::{decimal, parse_i64, read_i64, write_i64};
use crate::finance::accounts::{is_active, platform_owner};
use crate::finance::ledger::{
    lines_of, Hold, HoldState, Line, LiveDebit, LiveDebitState, Payout, PayoutState, Pool,
    PoolState, Reservation, ReservationState, SettlementLine,
};
use crate::finance::moves::{clamped, clamped_add};
use crate::finance::payouts::first_of;
use crate::finance::pools::is_balanced;
use crate::finance::settlement::{amount_in, keys_of};
use crate::json::{Json, Tree};
use crate::order::{ascending_once, sort_once};
use crate::table::{law_lookup_after_store, lookup, stored, Rows, Table};
use crate::text::{cut, join2, same, split_once, strip_prefix, strip_suffix, texts};

verus! {

broadcast use {vstd::string::group_string_axioms, law_lookup_after_store};

// ---------------------------------------------------------------- issues

/// One finding: what kind it is, which record or user it is about, and the figures.
pub struct Issue {
    pub code: String,
    pub reference: String,
    pub detail: String,
}

/// A finding, as texts.
pub struct Finding {
    pub code: Seq<char>,
    pub reference: Seq<char>,
    pub detail: Seq<char>,
}

impl View for Issue {
    type V = Finding;

    open spec fn view(&self) -> Finding {
        Finding { code: self.code@, reference: self.reference@, detail: self.detail@ }
    }
}

/// The findings of a list.
pub open spec fn findings_of(list: Seq<Issue>) -> Seq<Finding> {
    list.map_values(|i: Issue| i@)
}

/// What the records say each counter should hold, and the findings so far.
pub struct Audit {
    pub held: Rows<i64>,
    pub project_reserved: Rows<i64>,
    pub project_spent: Rows<i64>,
    pub spent: Rows<i64>,
    pub earned: Rows<i64>,
    pub pool_reserved: Rows<i64>,
    pub payout_held: Rows<i64>,
    pub findings: Seq<Finding>,
}

/// The audit with one more finding.
pub open spec fn noted(a: Audit, code: Seq<char>, reference: Seq<char>, detail: Seq<char>) -> Audit {
    Audit { findings: a.findings.push(Finding { code, reference, detail }), ..a }
}

/// The audit with one more finding, where `wrong` holds.
pub open spec fn noted_if(
    a: Audit,
    wrong: bool,
    code: Seq<char>,
    reference: Seq<char>,
    detail: Seq<char>,
) -> Audit {
    if wrong {
        noted(a, code, reference, detail)
    } else {
        a
    }
}

/// The totals with `amount` more under `key`; nothing where the key is empty, the amount
/// is negative, or the sum does not fit.
pub open spec fn raised(totals: Rows<i64>, key: Seq<char>, amount: int) -> Option<Rows<i64>> {
    if key.len() == 0 || amount < 0 || amount_in(totals, key) + amount > i64::MAX {
        None
    } else {
        Some(stored(totals, key, (amount_in(totals, key) + amount) as i64))
    }
}

/// Add `amount` to the total under `key`.
pub fn finance_map_add(totals: &mut Table<i64>, key: &str, amount: i64) -> (r: bool)
    ensures
        match raised(old(totals)@, key@, amount as int) {
            Some(next) => r && final(totals)@ == next,
            None => !r && final(totals)@ == old(totals)@,
        },
{
    if key.is_empty() || amount < 0 {
        return false;
    }
    let current: i64 = match totals.get(key) {
        Some(n) => *n,
        None => 0,
    };
    match current.checked_add(amount) {
        Some(next) => {
            totals.put(key, next);
            true
        },
        None => false,
    }
}

/// The running audit.
struct Auditor {
    held: Table<i64>,
    project_reserved: Table<i64>,
    project_spent: Table<i64>,
    spent: Table<i64>,
    earned: Table<i64>,
    pool_reserved: Table<i64>,
    payout_held: Table<i64>,
    issues: Vec<Issue>,
}

impl View for Auditor {
    type V = Audit;

    closed spec fn view(&self) -> Audit {
        Audit {
            held: self.held@,
            project_reserved: self.project_reserved@,
            project_spent: self.project_spent@,
            spent: self.spent@,
            earned: self.earned@,
            pool_reserved: self.pool_reserved@,
            payout_held: self.payout_held@,
            findings: findings_of(self.issues@),
        }
    }
}

/// An audit that has seen nothing.
pub open spec fn fresh_audit() -> Audit {
    Audit {
        held: Seq::empty(),
        project_reserved: Seq::empty(),
        project_spent: Seq::empty(),
        spent: Seq::empty(),
        earned: Seq::empty(),
        pool_reserved: Seq::empty(),
        payout_held: Seq::empty(),
        findings: Seq::empty(),
    }
}

impl Auditor {
    fn new() -> (r: Self)
        ensures
            r@ == fresh_audit(),
    {
        let r = Auditor {
            held: Table::new(),
            project_reserved: Table::new(),
            project_spent: Table::new(),
            spent: Table::new(),
            earned: Table::new(),
            pool_reserved: Table::new(),
            payout_held: Table::new(),
            issues: Vec::new(),
        };
        assert(r@ =~= fresh_audit()) by {
            assert(findings_of(r.issues@) =~= Seq::empty());
        }
        r
    }

    fn note(&mut self, code: &str, reference: &str, detail: &str)
        ensures
            final(self)@ == noted(old(self)@, code@, reference@, detail@),
    {
        let ghost before = self.issues@;
        let issue = Issue {
            code: code.to_owned(),
            reference: reference.to_owned(),
            detail: detail.to_owned(),
        };
        self.issues.push(issue);
        assert(findings_of(self.issues@) =~= findings_of(before).push(issue@));
    }
}

/// A label and a number.
fn figure(out: &mut String, label: &str, n: i64)
    ensures
        final(out)@ == old(out)@ + label@ + decimal(n as int),
{
    out.append(label);
    out.append(write_i64(n).as_str());
}

/// Two labelled numbers.
pub open spec fn figures2(a: Seq<char>, m: int, b: Seq<char>, n: int) -> Seq<char> {
    a + decimal(m) + b + decimal(n)
}

fn write_figures2(a: &str, m: i64, b: &str, n: i64) -> (r: String)
    ensures
        r@ == figures2(a@, m as int, b@, n as int),
{
    let mut out = String::new();
    figure(&mut out, a, m);
    figure(&mut out, b, n);
    assert(out@ =~= figures2(a@, m as int, b@, n as int));
    out
}

// ---------------------------------------------------------------- lines

/// The audit after lines were replayed as earnings, and their sum as near as 64 bits hold
/// it. A line that cannot be replayed is a finding and does not count.
pub open spec fn lines_replayed(
    a: Audit,
    lines: Seq<Line>,
    code: Seq<char>,
    reference: Seq<char>,
    detail: Seq<char>,
) -> (Audit, int)
    decreases lines.len(),
{
    if lines.len() == 0 {
        (a, 0)
    } else {
        let (before, sum) = lines_replayed(a, lines.drop_last(), code, reference, detail);
        let line = lines.last();
        if line.amount <= 0 || raised(before.earned, line.user_id, line.amount) is None {
            (noted(before, code, reference, detail), sum)
        } else {
            (
                Audit { earned: raised(before.earned, line.user_id, line.amount)->0, ..before },
                clamped(sum + line.amount),
            )
        }
    }
}

fn replay_lines(
    a: &mut Auditor,
    lines: &Vec<SettlementLine>,
    code: &str,
    reference: &str,
    detail: &str,
) -> (r: i64)
    ensures
        (final(a)@, r as int) == lines_replayed(
            old(a)@,
            lines_of(lines@),
            code@,
            reference@,
            detail@,
        ),
{
    let ghost start = a@;
    let ghost all = lines_of(lines@);
    let mut sum: i64 = 0;
    let mut i: usize = 0;
    assert(all.subrange(0, 0) =~= Seq::empty());
    while i < lines.len()
        invariant
            i <= lines@.len(),
            all == lines_of(lines@),
            (a@, sum as int) == lines_replayed(
                start,
                all.subrange(0, i as int),
                code@,
                reference@,
                detail@,
            ),
        decreases lines@.len() - i,
    {
        let line = &lines[i];
        let ghost upto = all.subrange(0, i + 1);
        assert(upto.drop_last() =~= all.subrange(0, i as int));
        assert(upto.last() == line@);
        if line.amount <= 0 || !finance_map_add(&mut a.earned, line.user_id.as_str(), line.amount) {
            a.note(code, reference, detail);
        } else {
            sum = clamped_add(sum, line.amount);
        }
        i = i + 1;
    }
    assert(all.subrange(0, all.len() as int) =~= all);
    sum
}

// ---------------------------------------------------------------- holds

/// The audit with `amount` more held for a payer.
pub open spec fn held_raised(a: Audit, payer: Seq<char>, amount: int, detail: Seq<char>) -> Audit {
    match raised(a.held, payer, amount) {
        Some(held) => Audit { held, ..a },
        None => noted(a, "held.overflow"@, payer, detail),
    }
}

/// The audit with `amount` more spent by a payer.
pub open spec fn spent_raised(a: Audit, payer: Seq<char>, amount: int, detail: Seq<char>) -> Audit {
    match raised(a.spent, payer, amount) {
        Some(spent) => Audit { spent, ..a },
        None => noted(a, "spent.overflow"@, payer, detail),
    }
}

/// The audit after an active hold.
pub open spec fn active_hold_replayed(a: Audit, id: Seq<char>, hold: HoldState) -> Audit {
    let checked = noted_if(
        a,
        hold.remaining_amount != hold.max_amount,
        "hold.remaining_mismatch"@,
        id,
        figures2("remaining="@, hold.remaining_amount, ", max="@, hold.max_amount),
    );
    let counted = held_raised(
        checked,
        hold.payer_user_id,
        hold.max_amount,
        "expected held balance overflow"@,
    );
    if hold.project_id.len() == 0 {
        counted
    } else {
        match raised(counted.project_reserved, hold.project_id, hold.max_amount) {
            Some(project_reserved) => Audit { project_reserved, ..counted },
            None => noted(
                counted,
                "project.reserved_overflow"@,
                hold.project_id,
                "expected reservation overflow"@,
            ),
        }
    }
}

/// Whether a settled hold accounts for everything it held.
pub open spec fn is_accounted(hold: HoldState) -> bool {
    &&& hold.remaining_amount == 0
    &&& hold.actual_amount >= 0
    &&& hold.refunded_amount >= 0
    &&& hold.actual_amount + hold.refunded_amount == hold.max_amount
}

/// The figures of a settled hold that does not account for everything.
pub open spec fn settlement_figures(hold: HoldState) -> Seq<char> {
    "actual="@ + decimal(hold.actual_amount) + ", refunded="@ + decimal(hold.refunded_amount)
        + ", max="@ + decimal(hold.max_amount) + ", remaining="@ + decimal(hold.remaining_amount)
}

/// The audit after a settled hold.
pub open spec fn settled_hold_replayed(a: Audit, id: Seq<char>, hold: HoldState) -> Audit {
    if !is_accounted(hold) {
        noted(a, "hold.settlement_mismatch"@, id, settlement_figures(hold))
    } else {
        let (replayed, sum) = lines_replayed(
            a,
            hold.settlement_lines,
            "settlement.line_invalid"@,
            id,
            "invalid beneficiary settlement line"@,
        );
        let checked = noted_if(
            replayed,
            sum != hold.actual_amount,
            "settlement.lines_mismatch"@,
            id,
            figures2("lines="@, sum, ", actual="@, hold.actual_amount),
        );
        let counted = spent_raised(
            checked,
            hold.payer_user_id,
            hold.actual_amount,
            "expected spent counter overflow"@,
        );
        if hold.project_id.len() == 0 {
            counted
        } else {
            match raised(counted.project_spent, hold.project_id, hold.actual_amount) {
                Some(project_spent) => Audit { project_spent, ..counted },
                None => noted(
                    counted,
                    "project.spent_overflow"@,
                    hold.project_id,
                    "expected project spend overflow"@,
                ),
            }
        }
    }
}

/// The audit after one hold; `None` is a hold that cannot be read.
pub open spec fn hold_replayed(a: Audit, id: Seq<char>, hold: Option<HoldState>) -> Audit {
    match hold {
        None => noted(a, "hold.unreadable"@, id, "hold JSON cannot be read"@),
        Some(hold) => if hold.payer_user_id.len() == 0 || hold.max_amount <= 0 {
            noted(a, "hold.invalid"@, id, "payer or maxAmount is invalid"@)
        } else if is_active(hold) {
            active_hold_replayed(a, id, hold)
        } else if hold.status == "settled"@ {
            settled_hold_replayed(a, id, hold)
        } else if hold.status == "released"@ || hold.status == "expired"@ {
            noted_if(
                a,
                hold.remaining_amount != 0 || hold.refunded_amount != hold.max_amount,
                "hold.release_mismatch"@,
                id,
                "refunded="@ + decimal(hold.refunded_amount) + ", max="@ + decimal(hold.max_amount)
                    + ", remaining="@ + decimal(hold.remaining_amount),
            )
        } else {
            noted(a, "hold.status_invalid"@, id, "status="@ + hold.status)
        },
    }
}

/// A record as it was found: `None` where it cannot be read.
pub open spec fn seen<V: View>(record: Option<V>) -> Option<V::V> {
    match record {
        Some(v) => Some(v@),
        None => None,
    }
}

/// The records of a scan: identifiers and what was found under each.
pub open spec fn scanned<V: View>(list: Seq<(String, Option<V>)>) -> Rows<Option<V::V>> {
    list.map_values(|row: (String, Option<V>)| (row.0@, seen(row.1)))
}

fn replay_hold(a: &mut Auditor, id: &str, hold: &Option<Hold>)
    ensures
        final(a)@ == hold_replayed(old(a)@, id@, seen(*hold)),
{
    let hold = match hold {
        None => {
            a.note("hold.unreadable", id, "hold JSON cannot be read");
            return;
        },
        Some(hold) => hold,
    };
    let payer = hold.payer_user_id.as_str();
    let project = hold.project_id.as_str();
    let status = hold.status.as_str();
    if payer.is_empty() || hold.max_amount <= 0 {
        a.note("hold.invalid", id, "payer or maxAmount is invalid");
    } else if same(status, "open") || same(status, "running") {
        if hold.remaining_amount != hold.max_amount {
            let detail = write_figures2(
                "remaining=",
                hold.remaining_amount,
                ", max=",
                hold.max_amount,
            );
            a.note("hold.remaining_mismatch", id, detail.as_str());
        }
        if !finance_map_add(&mut a.held, payer, hold.max_amount) {
            a.note("held.overflow", payer, "expected held balance overflow");
        }
        if !project.is_empty() && !finance_map_add(
            &mut a.project_reserved,
            project,
            hold.max_amount,
        ) {
            a.note("project.reserved_overflow", project, "expected reservation overflow");
        }
    } else if same(status, "settled") {
        let accounted = match hold.actual_amount.checked_add(hold.refunded_amount) {
            Some(sum) => hold.remaining_amount == 0 && hold.actual_amount >= 0
                && hold.refunded_amount >= 0 && sum == hold.max_amount,
            None => false,
        };
        if !accounted {
            let mut detail = String::new();
            figure(&mut detail, "actual=", hold.actual_amount);
            figure(&mut detail, ", refunded=", hold.refunded_amount);
            figure(&mut detail, ", max=", hold.max_amount);
            figure(&mut detail, ", remaining=", hold.remaining_amount);
            assert(detail@ =~= settlement_figures(hold@));
            a.note("hold.settlement_mismatch", id, detail.as_str());
            return;
        }
        let sum: i64 = replay_lines(
            a,
            &hold.settlement_lines,
            "settlement.line_invalid",
            id,
            "invalid beneficiary settlement line",
        );
        if sum != hold.actual_amount {
            let detail = write_figures2("lines=", sum, ", actual=", hold.actual_amount);
            a.note("settlement.lines_mismatch", id, detail.as_str());
        }
        if !finance_map_add(&mut a.spent, payer, hold.actual_amount) {
            a.note("spent.overflow", payer, "expected spent counter overflow");
        }
        if !project.is_empty() && !finance_map_add(
            &mut a.project_spent,
            project,
            hold.actual_amount,
        ) {
            a.note("project.spent_overflow", project, "expected project spend overflow");
        }
    } else if same(status, "released") || same(status, "expired") {
        if hold.remaining_amount != 0 || hold.refunded_amount != hold.max_amount {
            let mut detail = String::new();
            figure(&mut detail, "refunded=", hold.refunded_amount);
            figure(&mut detail, ", max=", hold.max_amount);
            figure(&mut detail, ", remaining=", hold.remaining_amount);
            assert(detail@ =~= "refunded="@ + decimal(hold@.refunded_amount) + ", max="@ + decimal(
                hold@.max_amount,
            ) + ", remaining="@ + decimal(hold@.remaining_amount));
            a.note("hold.release_mismatch", id, detail.as_str());
        }
    } else {
        let detail = join2("status=", status);
        a.note("hold.status_invalid", id, detail.as_str());
    }
}

/// The audit after all holds.
pub open spec fn holds_replayed(a: Audit, rows: Rows<Option<HoldState>>) -> Audit
    decreases rows.len(),
{
    if rows.len() == 0 {
        a
    } else {
        hold_replayed(holds_replayed(a, rows.drop_last()), rows.last().0, rows.last().1)
    }
}

fn replay_holds(a: &mut Auditor, list: &Vec<(String, Option<Hold>)>)
    ensures
        final(a)@ == holds_replayed(old(a)@, scanned(list@)),
{
    let ghost start = a@;
    let ghost rows = scanned(list@);
    let mut i: usize = 0;
    assert(rows.subrange(0, 0) =~= Seq::empty());
    while i < list.len()
        invariant
            i <= list@.len(),
            rows == scanned(list@),
            a@ == holds_replayed(start, rows.subrange(0, i as int)),
        decreases list@.len() - i,
    {
        let ghost upto = rows.subrange(0, i + 1);
        assert(upto.drop_last() =~= rows.subrange(0, i as int));
        assert(upto.last() == (list@[i as int].0@, seen(list@[i as int].1)));
        replay_hold(a, list[i].0.as_str(), &list[i].1);
        i = i + 1;
    }
    assert(rows.subrange(0, rows.len() as int) =~= rows);
}

// ---------------------------------------------------------------- pools

/// The figures of a pool whose amounts do not add up.
pub open spec fn pool_figures(pool: PoolState) -> Seq<char> {
    "remaining="@ + decimal(pool.remaining) + ", reserved="@ + decimal(pool.reserved) + ", spent="@
        + decimal(pool.spent) + ", refunded="@ + decimal(pool.refunded) + ", max="@ + decimal(
        pool.max_amount,
    )
}

/// Whether a pool has a payer and no negative amount.
pub open spec fn is_pool_readable(pool: PoolState) -> bool {
    &&& pool.payer_user_id.len() > 0
    &&& pool.max_amount >= 0
    &&& pool.remaining >= 0
    &&& pool.reserved >= 0
    &&& pool.spent >= 0
    &&& pool.refunded >= 0
}

/// The audit after one pool.
pub open spec fn pool_replayed(a: Audit, id: Seq<char>, pool: Option<PoolState>) -> Audit {
    match pool {
        None => noted(a, "pool.unreadable"@, id, "pool JSON cannot be read"@),
        Some(pool) => if !is_pool_readable(pool) {
            noted(a, "pool.invalid"@, id, "payer or pool amounts are invalid"@)
        } else {
            let checked = noted_if(
                a,
                !is_balanced(pool),
                "pool.balance_mismatch"@,
                id,
                pool_figures(pool),
            );
            if pool.status == "open"@ {
                held_raised(
                    checked,
                    pool.payer_user_id,
                    clamped(pool.remaining + pool.reserved),
                    "expected held (pool) overflow"@,
                )
            } else {
                checked
            }
        },
    }
}

fn replay_pool(a: &mut Auditor, id: &str, pool: &Option<Pool>)
    ensures
        final(a)@ == pool_replayed(old(a)@, id@, seen(*pool)),
{
    let pool = match pool {
        None => {
            a.note("pool.unreadable", id, "pool JSON cannot be read");
            return;
        },
        Some(pool) => pool,
    };
    let payer = pool.payer_user_id.as_str();
    if payer.is_empty() || pool.max_amount < 0 || pool.remaining < 0 || pool.reserved < 0
        || pool.spent < 0 || pool.refunded < 0 {
        a.note("pool.invalid", id, "payer or pool amounts are invalid");
        return;
    }
    let sum: i128 = pool.remaining as i128 + pool.reserved as i128 + pool.spent as i128
        + pool.refunded as i128;
    if sum != pool.max_amount as i128 {
        let mut detail = String::new();
        figure(&mut detail, "remaining=", pool.remaining);
        figure(&mut detail, ", reserved=", pool.reserved);
        figure(&mut detail, ", spent=", pool.spent);
        figure(&mut detail, ", refunded=", pool.refunded);
        figure(&mut detail, ", max=", pool.max_amount);
        assert(detail@ =~= pool_figures(pool@));
        a.note("pool.balance_mismatch", id, detail.as_str());
    }
    if same(pool.status.as_str(), "open") {
        let amount: i64 = clamped_add(pool.remaining, pool.reserved);
        if !finance_map_add(&mut a.held, payer, amount) {
            a.note("held.overflow", payer, "expected held (pool) overflow");
        }
    }
}

/// The audit after all pools.
pub open spec fn pools_replayed(a: Audit, rows: Rows<Option<PoolState>>) -> Audit
    decreases rows.len(),
{
    if rows.len() == 0 {
        a
    } else {
        pool_replayed(pools_replayed(a, rows.drop_last()), rows.last().0, rows.last().1)
    }
}

fn replay_pools(a: &mut Auditor, list: &Vec<(String, Option<Pool>)>)
    ensures
        final(a)@ == pools_replayed(old(a)@, scanned(list@)),
{
    let ghost start = a@;
    let ghost rows = scanned(list@);
    let mut i: usize = 0;
    assert(rows.subrange(0, 0) =~= Seq::empty());
    while i < list.len()
        invariant
            i <= list@.len(),
            rows == scanned(list@),
            a@ == pools_replayed(start, rows.subrange(0, i as int)),
        decreases list@.len() - i,
    {
        let ghost upto = rows.subrange(0, i + 1);
        assert(upto.drop_last() =~= rows.subrange(0, i as int));
        assert(upto.last() == (list@[i as int].0@, seen(list@[i as int].1)));
        replay_pool(a, list[i].0.as_str(), &list[i].1);
        i = i + 1;
    }
    assert(rows.subrange(0, rows.len() as int) =~= rows);
}

// ---------------------------------------------------------------- reservations

/// The audit after one pool reservation.
pub open spec fn reservation_replayed(
    a: Audit,
    id: Seq<char>,
    reservation: Option<ReservationState>,
) -> Audit {
    match reservation {
        None => noted(a, "reservation.unreadable"@, id, "reservation JSON cannot be read"@),
        Some(r) => if r.payer_user_id.len() == 0 || r.pool_id.len() == 0 || r.amount < 0 {
            noted(a, "reservation.invalid"@, id, "reservation fields are invalid"@)
        } else if r.status == "reserved"@ {
            match raised(a.pool_reserved, r.pool_id, r.amount) {
                Some(pool_reserved) => Audit { pool_reserved, ..a },
                None => noted(
                    a,
                    "reservation.overflow"@,
                    r.pool_id,
                    "expected pool reserved overflow"@,
                ),
            }
        } else if r.status == "settled"@ {
            if r.actual_amount < 0 {
                noted(
                    a,
                    "reservation.settlement_invalid"@,
                    id,
                    "settled reservation missing actualAmount"@,
                )
            } else {
                let (replayed, sum) = lines_replayed(
                    a,
                    r.settlement_lines,
                    "reservation.line_invalid"@,
                    id,
                    "invalid pool settlement line"@,
                );
                let checked = noted_if(
                    replayed,
                    sum != r.actual_amount,
                    "reservation.lines_mismatch"@,
                    id,
                    figures2("lines="@, sum, ", actual="@, r.actual_amount),
                );
                spent_raised(
                    checked,
                    r.payer_user_id,
                    r.actual_amount,
                    "expected spent (pool) overflow"@,
                )
            }
        } else if r.status == "released"@ {
            a
        } else {
            noted(a, "reservation.status_invalid"@, id, "status="@ + r.status)
        },
    }
}

fn replay_reservation(a: &mut Auditor, id: &str, reservation: &Option<Reservation>)
    ensures
        final(a)@ == reservation_replayed(old(a)@, id@, seen(*reservation)),
{
    let r = match reservation {
        None => {
            a.note("reservation.unreadable", id, "reservation JSON cannot be read");
            return;
        },
        Some(r) => r,
    };
    let payer = r.payer_user_id.as_str();
    let pool_id = r.pool_id.as_str();
    let status = r.status.as_str();
    if payer.is_empty() || pool_id.is_empty() || r.amount < 0 {
        a.note("reservation.invalid", id, "reservation fields are invalid");
    } else if same(status, "reserved") {
        if !finance_map_add(&mut a.pool_reserved, pool_id, r.amount) {
            a.note("reservation.overflow", pool_id, "expected pool reserved overflow");
        }
    } else if same(status, "settled") {
        if r.actual_amount < 0 {
            a.note(
                "reservation.settlement_invalid",
                id,
                "settled reservation missing actualAmount",
            );
            return;
        }
        let sum: i64 = replay_lines(
            a,
            &r.settlement_lines,
            "reservation.line_invalid",
            id,
            "invalid pool settlement line",
        );
        if sum != r.actual_amount {
            let detail = write_figures2("lines=", sum, ", actual=", r.actual_amount);
            a.note("reservation.lines_mismatch", id, detail.as_str());
        }
        if !finance_map_add(&mut a.spent, payer, r.actual_amount) {
            a.note("spent.overflow", payer, "expected spent (pool) overflow");
        }
    } else if same(status, "released") {
    } else {
        let detail = join2("status=", status);
        a.note("reservation.status_invalid", id, detail.as_str());
    }
}

/// The audit after all reservations.
pub open spec fn reservations_replayed(a: Audit, rows: Rows<Option<ReservationState>>) -> Audit
    decreases rows.len(),
{
    if rows.len() == 0 {
        a
    } else {
        reservation_replayed(
            reservations_replayed(a, rows.drop_last()),
            rows.last().0,
            rows.last().1,
        )
    }
}

fn replay_reservations(a: &mut Auditor, list: &Vec<(String, Option<Reservation>)>)
    ensures
        final(a)@ == reservations_replayed(old(a)@, scanned(list@)),
{
    let ghost start = a@;
    let ghost rows = scanned(list@);
    let mut i: usize = 0;
    assert(rows.subrange(0, 0) =~= Seq::empty());
    while i < list.len()
        invariant
            i <= list@.len(),
            rows == scanned(list@),
            a@ == reservations_replayed(start, rows.subrange(0, i as int)),
        decreases list@.len() - i,
    {
        let ghost upto = rows.subrange(0, i + 1);
        assert(upto.drop_last() =~= rows.subrange(0, i as int));
        assert(upto.last() == (list@[i as int].0@, seen(list@[i as int].1)));
        replay_reservation(a, list[i].0.as_str(), &list[i].1);
        i = i + 1;
    }
    assert(rows.subrange(0, rows.len() as int) =~= rows);
}

// ---------------------------------------------------------------- live debits

/// The user of a credit key: what stands before the first bar.
pub open spec fn credit_user(key: Seq<char>) -> Seq<char> {
    match cut(key, "|"@) {
        Some((user, _)) => user,
        None => key,
    }
}

/// The audit after a run's live credits were replayed as earnings, and their sum.
pub open spec fn credits_replayed(a: Audit, credits: Rows<i64>, id: Seq<char>) -> (Audit, int)
    decreases credits.len(),
{
    if credits.len() == 0 {
        (a, 0)
    } else {
        let (before, sum) = credits_replayed(a, credits.drop_last(), id);
        let (key, amount) = credits.last();
        let user = credit_user(key);
        if user.len() == 0 || amount <= 0 || raised(before.earned, user, amount as int) is None {
            (noted(before, "livedebit.credit_invalid"@, id, "invalid live debit credit"@), sum)
        } else {
            (
                Audit { earned: raised(before.earned, user, amount as int)->0, ..before },
                clamped(sum + amount),
            )
        }
    }
}

fn replay_credits(a: &mut Auditor, credits: &Table<i64>, id: &str) -> (r: i64)
    ensures
        (final(a)@, r as int) == credits_replayed(old(a)@, credits@, id@),
{
    let ghost start = a@;
    let mut sum: i64 = 0;
    let mut i: usize = 0;
    assert(credits@.subrange(0, 0) =~= Seq::empty());
    while i < credits.len()
        invariant
            i <= credits@.len(),
            (a@, sum as int) == credits_replayed(start, credits@.subrange(0, i as int), id@),
        decreases credits@.len() - i,
    {
        let ghost upto = credits@.subrange(0, i + 1);
        assert(upto.drop_last() =~= credits@.subrange(0, i as int));
        assert(upto.last() == credits@[i as int]);
        let key = credits.key_at(i);
        let amount: i64 = *credits.record_at(i);
        let user: &str = match split_once(key, "|") {
            Some((user, _)) => user,
            None => key,
        };
        if user.is_empty() || amount <= 0 || !finance_map_add(&mut a.earned, user, amount) {
            a.note("livedebit.credit_invalid", id, "invalid live debit credit");
        } else {
            sum = clamped_add(sum, amount);
        }
        i = i + 1;
    }
    assert(credits@.subrange(0, credits@.len() as int) =~= credits@);
    sum
}

/// The audit after one run's live debits.
pub open spec fn debit_replayed(a: Audit, id: Seq<char>, record: Option<LiveDebitState>) -> Audit {
    match record {
        None => noted(a, "livedebit.unreadable"@, id, "live debit JSON cannot be read"@),
        Some(d) => if d.payer_user_id.len() == 0 || d.charged_total < 0 {
            noted(a, "livedebit.invalid"@, id, "live debit fields are invalid"@)
        } else {
            let (replayed, sum) = credits_replayed(a, d.credits, id);
            let checked = noted_if(
                replayed,
                sum != d.charged_total,
                "livedebit.credit_mismatch"@,
                id,
                figures2("credits="@, sum, ", charged="@, d.charged_total),
            );
            spent_raised(
                checked,
                d.payer_user_id,
                d.charged_total,
                "expected spent (live debit) overflow"@,
            )
        },
    }
}

fn replay_debit(a: &mut Auditor, id: &str, record: &Option<LiveDebit>)
    ensures
        final(a)@ == debit_replayed(old(a)@, id@, seen(*record)),
{
    let d = match record {
        None => {
            a.note("livedebit.unreadable", id, "live debit JSON cannot be read");
            return;
        },
        Some(d) => d,
    };
    let payer = d.payer_user_id.as_str();
    if payer.is_empty() || d.charged_total < 0 {
        a.note("livedebit.invalid", id, "live debit fields are invalid");
        return;
    }
    let sum: i64 = replay_credits(a, &d.credits, id);
    if sum != d.charged_total {
        let detail = write_figures2("credits=", sum, ", charged=", d.charged_total);
        a.note("livedebit.credit_mismatch", id, detail.as_str());
    }
    if !finance_map_add(&mut a.spent, payer, d.charged_total) {
        a.note("spent.overflow", payer, "expected spent (live debit) overflow");
    }
}

/// The audit after all live debits.
pub open spec fn debits_replayed(a: Audit, rows: Rows<Option<LiveDebitState>>) -> Audit
    decreases rows.len(),
{
    if rows.len() == 0 {
        a
    } else {
        debit_replayed(debits_replayed(a, rows.drop_last()), rows.last().0, rows.last().1)
    }
}

fn replay_debits(a: &mut Auditor, list: &Vec<(String, Option<LiveDebit>)>)
    ensures
        final(a)@ == debits_replayed(old(a)@, scanned(list@)),
{
    let ghost start = a@;
    let ghost rows = scanned(list@);
    let mut i: usize = 0;
    assert(rows.subrange(0, 0) =~= Seq::empty());
    while i < list.len()
        invariant
            i <= list@.len(),
            rows == scanned(list@),
            a@ == debits_replayed(start, rows.subrange(0, i as int)),
        decreases list@.len() - i,
    {
        let ghost upto = rows.subrange(0, i + 1);
        assert(upto.drop_last() =~= rows.subrange(0, i as int));
        assert(upto.last() == (list@[i as int].0@, seen(list@[i as int].1)));
        replay_debit(a, list[i].0.as_str(), &list[i].1);
        i = i + 1;
    }
    assert(rows.subrange(0, rows.len() as int) =~= rows);
}

// ---------------------------------------------------------------- reserved amounts

/// The audit after each readable pool's reserved amount was compared with the sum of its
/// open reservations.
pub open spec fn reserved_compared(a: Audit, rows: Rows<Option<PoolState>>) -> Audit
    decreases rows.len(),
{
    if rows.len() == 0 {
        a
    } else {
        let before = reserved_compared(a, rows.drop_last());
        let (id, pool) = rows.last();
        match pool {
            None => before,
            Some(pool) => noted_if(
                before,
                pool.reserved != amount_in(a.pool_reserved, id),
                "pool.reserved_mismatch"@,
                id,
                figures2(
                    "stored="@,
                    pool.reserved,
                    ", expected="@,
                    amount_in(a.pool_reserved, id) as int,
                ),
            ),
        }
    }
}

proof fn lemma_reserved_compared_keeps(a: Audit, rows: Rows<Option<PoolState>>)
    ensures
        reserved_compared(a, rows) == (Audit {
            findings: reserved_compared(a, rows).findings,
            ..a
        }),
    decreases rows.len(),
{
    if rows.len() > 0 {
        lemma_reserved_compared_keeps(a, rows.drop_last());
    }
}

fn compare_reserved(a: &mut Auditor, list: &Vec<(String, Option<Pool>)>)
    ensures
        final(a)@ == reserved_compared(old(a)@, scanned(list@)),
{
    let ghost start = a@;
    let ghost rows = scanned(list@);
    let mut i: usize = 0;
    assert(rows.subrange(0, 0) =~= Seq::empty());
    while i < list.len()
        invariant
            i <= list@.len(),
            rows == scanned(list@),
            a@ == reserved_compared(start, rows.subrange(0, i as int)),
        decreases list@.len() - i,
    {
        let ghost upto = rows.subrange(0, i + 1);
        proof {
            assert(upto.drop_last() =~= rows.subrange(0, i as int));
            assert(upto.last() == (list@[i as int].0@, seen(list@[i as int].1)));
            lemma_reserved_compared_keeps(start, rows.subrange(0, i as int));
        }
        let id = list[i].0.as_str();
        match &list[i].1 {
            None => {},
            Some(pool) => {
                let expected: i64 = match a.pool_reserved.get(id) {
                    Some(n) => *n,
                    None => 0,
                };
                if pool.reserved != expected {
                    let detail = write_figures2("stored=", pool.reserved, ", expected=", expected);
                    a.note("pool.reserved_mismatch", id, detail.as_str());
                }
            },
        }
        i = i + 1;
    }
    assert(rows.subrange(0, rows.len() as int) =~= rows);
}

// ---------------------------------------------------------------- counters

/// The stored counters of a scan: users and the texts stored for them.
pub open spec fn raw_of(list: Seq<(String, String)>) -> Rows<Seq<char>> {
    list.map_values(|row: (String, String)| (row.0@, row.1@))
}

/// How a kind of counter is read and reported.
#[derive(Clone, Copy)]
pub enum Counter {
    Held,
    PayoutHeld,
    Spent,
    Earned,
}

impl Counter {
    /// The code of a counter that differs from its records.
    pub open spec fn mismatch(self) -> Seq<char> {
        match self {
            Counter::Held => "held.mismatch"@,
            Counter::PayoutHeld => "payout.held_mismatch"@,
            Counter::Spent => "spent.mismatch"@,
            Counter::Earned => "earned.mismatch"@,
        }
    }

    /// The code of a counter that cannot be read.
    pub open spec fn unreadable(self) -> Seq<char> {
        match self {
            Counter::Held => "held.invalid"@,
            Counter::PayoutHeld => "payout.held_invalid"@,
            Counter::Spent => "spent.mismatch"@,
            Counter::Earned => "earned.mismatch"@,
        }
    }

    /// The detail of a counter that cannot be read.
    pub open spec fn unreadable_detail(self, raw: Seq<char>) -> Seq<char> {
        match self {
            Counter::Held => "stored="@ + raw,
            Counter::PayoutHeld => "stored payout held amount is invalid"@,
            _ => "stored counter is invalid"@,
        }
    }

    /// Whether a stored number is acceptable; held amounts are never negative.
    pub open spec fn accepts(self, n: i64) -> bool {
        match self {
            Counter::Held | Counter::PayoutHeld => n >= 0,
            _ => true,
        }
    }
}

/// The readable counters of a scan, and the audit with a finding for each of the others.
pub open spec fn counters_read(a: Audit, rows: Rows<Seq<char>>, kind: Counter) -> (Audit, Rows<i64>)
    decreases rows.len(),
{
    if rows.len() == 0 {
        (a, Seq::empty())
    } else {
        let (before, actual) = counters_read(a, rows.drop_last(), kind);
        let (user, raw) = rows.last();
        match read_i64(raw) {
            Some(n) if kind.accepts(n) => (before, stored(actual, user, n)),
            _ => (noted(before, kind.unreadable(), user, kind.unreadable_detail(raw)), actual),
        }
    }
}

/// The audit after each user's counter was compared with the records.
pub open spec fn users_compared(
    a: Audit,
    users: Seq<Seq<char>>,
    expected: Rows<i64>,
    actual: Rows<i64>,
    kind: Counter,
) -> Audit
    decreases users.len(),
{
    if users.len() == 0 {
        a
    } else {
        let before = users_compared(a, users.drop_last(), expected, actual, kind);
        let user = users.last();
        noted_if(
            before,
            amount_in(actual, user) != amount_in(expected, user),
            kind.mismatch(),
            user,
            figures2(
                "stored="@,
                amount_in(actual, user) as int,
                ", expected="@,
                amount_in(expected, user) as int,
            ),
        )
    }
}

/// The audit after a kind of counter was compared with the records.
pub open spec fn counters_compared(
    a: Audit,
    expected: Rows<i64>,
    rows: Rows<Seq<char>>,
    kind: Counter,
) -> Audit {
    let (checked, actual) = counters_read(a, rows, kind);
    users_compared(
        checked,
        ascending_once(keys_of(expected) + keys_of(actual)),
        expected,
        actual,
        kind,
    )
}

fn read_counters(a: &mut Auditor, list: &Vec<(String, String)>, kind: Counter) -> (r: Table<i64>)
    ensures
        (final(a)@, r@) == counters_read(old(a)@, raw_of(list@), kind),
{
    let ghost start = a@;
    let ghost rows = raw_of(list@);
    let mut actual: Table<i64> = Table::new();
    let mut i: usize = 0;
    assert(rows.subrange(0, 0) =~= Seq::empty());
    assert(actual@ =~= Seq::empty());
    while i < list.len()
        invariant
            i <= list@.len(),
            rows == raw_of(list@),
            (a@, actual@) == counters_read(start, rows.subrange(0, i as int), kind),
        decreases list@.len() - i,
    {
        let ghost upto = rows.subrange(0, i + 1);
        assert(upto.drop_last() =~= rows.subrange(0, i as int));
        assert(upto.last() == (list@[i as int].0@, list@[i as int].1@));
        let user = list[i].0.as_str();
        let raw = list[i].1.as_str();
        let value = parse_i64(raw);
        let good = match value {
            Some(n) => match kind {
                Counter::Held => n >= 0,
                Counter::PayoutHeld => n >= 0,
                _ => true,
            },
            None => false,
        };
        if good {
            actual.put(user, value.unwrap());
        } else {
            match kind {
                Counter::Held => {
                    let detail = join2("stored=", raw);
                    a.note("held.invalid", user, detail.as_str());
                },
                Counter::PayoutHeld => {
                    a.note("payout.held_invalid", user, "stored payout held amount is invalid");
                },
                Counter::Spent => {
                    a.note("spent.mismatch", user, "stored counter is invalid");
                },
                Counter::Earned => {
                    a.note("earned.mismatch", user, "stored counter is invalid");
                },
            }
        }
        i = i + 1;
    }
    assert(rows.subrange(0, rows.len() as int) =~= rows);
    actual
}

fn add_keys(out: &mut Vec<String>, rows: &Table<i64>)
    ensures
        texts(final(out)@) == texts(old(out)@) + keys_of(rows@),
{
    crate::finance::settlement::add_participants(out, rows);
}

fn both_keys(x: &Table<i64>, y: &Table<i64>) -> (r: Vec<String>)
    ensures
        texts(r@) == ascending_once(keys_of(x@) + keys_of(y@)),
{
    let mut keys: Vec<String> = Vec::new();
    add_keys(&mut keys, x);
    add_keys(&mut keys, y);
    assert(texts(keys@) =~= keys_of(x@) + keys_of(y@));
    sort_once(&keys)
}

fn compare_counters(
    a: &mut Auditor,
    expected: &Table<i64>,
    list: &Vec<(String, String)>,
    kind: Counter,
)
    ensures
        final(a)@ == counters_compared(old(a)@, expected@, raw_of(list@), kind),
{
    let actual = read_counters(a, list, kind);
    let users = both_keys(expected, &actual);
    let ghost start = a@;
    let ghost all = texts(users@);
    let mut i: usize = 0;
    assert(all.subrange(0, 0) =~= Seq::empty());
    while i < users.len()
        invariant
            i <= users@.len(),
            all == texts(users@),
            a@ == users_compared(start, all.subrange(0, i as int), expected@, actual@, kind),
        decreases users@.len() - i,
    {
        let ghost upto = all.subrange(0, i + 1);
        assert(upto.drop_last() =~= all.subrange(0, i as int));
        assert(upto.last() == users@[i as int]@);
        let user = users[i].as_str();
        let want: i64 = match expected.get(user) {
            Some(n) => *n,
            None => 0,
        };
        let have: i64 = match actual.get(user) {
            Some(n) => *n,
            None => 0,
        };
        if have != want {
            let detail = write_figures2("stored=", have, ", expected=", want);
            match kind {
                Counter::Held => a.note("held.mismatch", user, detail.as_str()),
                Counter::PayoutHeld => a.note("payout.held_mismatch", user, detail.as_str()),
                Counter::Spent => a.note("spent.mismatch", user, detail.as_str()),
                Counter::Earned => a.note("earned.mismatch", user, detail.as_str()),
            }
        }
        i = i + 1;
    }
    assert(all.subrange(0, all.len() as int) =~= all);
}

// ---------------------------------------------------------------- payouts

/// The audit after one payout.
pub open spec fn payout_replayed(a: Audit, id: Seq<char>, payout: Option<PayoutState>) -> Audit {
    match payout {
        None => noted(a, "payout.unreadable"@, id, "payout JSON cannot be read"@),
        Some(p) => if p.status != "pending"@ {
            a
        } else if p.amount <= 0 || raised(a.payout_held, p.user_id, p.amount) is None {
            noted(a, "payout.invalid"@, id, "pending payout owner or amount is invalid"@)
        } else {
            Audit { payout_held: raised(a.payout_held, p.user_id, p.amount)->0, ..a }
        },
    }
}

fn replay_payout(a: &mut Auditor, id: &str, payout: &Option<Payout>)
    ensures
        final(a)@ == payout_replayed(old(a)@, id@, seen(*payout)),
{
    match payout {
        None => {
            a.note("payout.unreadable", id, "payout JSON cannot be read");
        },
        Some(p) => {
            if same(p.status.as_str(), "pending") {
                if p.amount <= 0 || !finance_map_add(
                    &mut a.payout_held,
                    p.user_id.as_str(),
                    p.amount,
                ) {
                    a.note("payout.invalid", id, "pending payout owner or amount is invalid");
                }
            }
        },
    }
}

/// The audit after all payouts.
pub open spec fn payouts_replayed(a: Audit, rows: Rows<Option<PayoutState>>) -> Audit
    decreases rows.len(),
{
    if rows.len() == 0 {
        a
    } else {
        payout_replayed(payouts_replayed(a, rows.drop_last()), rows.last().0, rows.last().1)
    }
}

fn replay_payouts(a: &mut Auditor, list: &Vec<(String, Option<Payout>)>)
    ensures
        final(a)@ == payouts_replayed(old(a)@, scanned(list@)),
{
    let ghost start = a@;
    let ghost rows = scanned(list@);
    let mut i: usize = 0;
    assert(rows.subrange(0, 0) =~= Seq::empty());
    while i < list.len()
        invariant
            i <= list@.len(),
            rows == scanned(list@),
            a@ == payouts_replayed(start, rows.subrange(0, i as int)),
        decreases list@.len() - i,
    {
        let ghost upto = rows.subrange(0, i + 1);
        assert(upto.drop_last() =~= rows.subrange(0, i as int));
        assert(upto.last() == (list@[i as int].0@, seen(list@[i as int].1)));
        replay_payout(a, list[i].0.as_str(), &list[i].1);
        i = i + 1;
    }
    assert(rows.subrange(0, rows.len() as int) =~= rows);
}

// ---------------------------------------------------------------- withdrawable

/// A stored withdrawable counter, and the balance of the user where there is one.
pub struct WithdrawableRow {
    pub user_id: String,
    pub raw: String,
    pub available: Option<i64>,
}

/// A withdrawable counter, as a text and numbers; a text that is no number reads as minus
/// one.
pub struct WithdrawableState {
    pub user_id: Seq<char>,
    pub withdrawable: i64,
    pub available: Option<i64>,
}

impl View for WithdrawableRow {
    type V = WithdrawableState;

    open spec fn view(&self) -> WithdrawableState {
        WithdrawableState {
            user_id: self.user_id@,
            withdrawable: match read_i64(self.raw@) {
                Some(n) => n,
                None => -1i64,
            },
            available: self.available,
        }
    }
}

/// The rows of a list.
pub open spec fn withdrawables_of(list: Seq<WithdrawableRow>) -> Seq<WithdrawableState> {
    list.map_values(|w: WithdrawableRow| w@)
}

/// The audit after the withdrawable counters were checked, and their sum as near as 64
/// bits hold it. No more may be withdrawn than is available, and a counter of a user that
/// does not exist is a finding.
pub open spec fn withdrawables_checked(a: Audit, rows: Seq<WithdrawableState>) -> (Audit, int)
    decreases rows.len(),
{
    if rows.len() == 0 {
        (a, 0)
    } else {
        let (before, sum) = withdrawables_checked(a, rows.drop_last());
        let row = rows.last();
        let wrong = row.withdrawable < 0 || match row.available {
            Some(available) => row.withdrawable > available,
            None => true,
        };
        (
            noted_if(
                before,
                wrong,
                "withdrawable.invalid"@,
                row.user_id,
                figures2(
                    "withdrawable="@,
                    row.withdrawable as int,
                    ", available="@,
                    match row.available {
                        Some(available) => available as int,
                        None => 0,
                    },
                ),
            ),
            if row.withdrawable > 0 {
                clamped(sum + row.withdrawable)
            } else {
                sum
            },
        )
    }
}

fn check_withdrawables(a: &mut Auditor, list: &Vec<WithdrawableRow>) -> (r: i64)
    ensures
        (final(a)@, r as int) == withdrawables_checked(old(a)@, withdrawables_of(list@)),
{
    let ghost start = a@;
    let ghost rows = withdrawables_of(list@);
    let mut sum: i64 = 0;
    let mut i: usize = 0;
    assert(rows.subrange(0, 0) =~= Seq::empty());
    while i < list.len()
        invariant
            i <= list@.len(),
            rows == withdrawables_of(list@),
            (a@, sum as int) == withdrawables_checked(start, rows.subrange(0, i as int)),
        decreases list@.len() - i,
    {
        let ghost upto = rows.subrange(0, i + 1);
        assert(upto.drop_last() =~= rows.subrange(0, i as int));
        assert(upto.last() == list@[i as int]@);
        let row = &list[i];
        let withdrawable: i64 = match parse_i64(row.raw.as_str()) {
            Some(n) => n,
            None => -1,
        };
        let available: i64 = match row.available {
            Some(n) => n,
            None => 0,
        };
        if withdrawable < 0 || row.available.is_none() || withdrawable > available {
            let detail = write_figures2("withdrawable=", withdrawable, ", available=", available);
            a.note("withdrawable.invalid", row.user_id.as_str(), detail.as_str());
        }
        if withdrawable > 0 {
            sum = clamped_add(sum, withdrawable);
        }
        i = i + 1;
    }
    assert(rows.subrange(0, rows.len() as int) =~= rows);
    sum
}

/// The sum of all amounts, as near as 64 bits hold it.
pub open spec fn clamped_total(rows: Rows<i64>) -> int
    decreases rows.len(),
{
    if rows.len() == 0 {
        0
    } else {
        clamped(clamped_total(rows.drop_last()) + rows.last().1)
    }
}

fn add_up(rows: &Table<i64>) -> (r: i64)
    ensures
        r == clamped_total(rows@),
{
    let mut sum: i64 = 0;
    let mut i: usize = 0;
    assert(rows@.subrange(0, 0) =~= Seq::empty());
    while i < rows.len()
        invariant
            i <= rows@.len(),
            sum == clamped_total(rows@.subrange(0, i as int)),
        decreases rows@.len() - i,
    {
        let ghost upto = rows@.subrange(0, i + 1);
        assert(upto.drop_last() =~= rows@.subrange(0, i as int));
        assert(upto.last() == rows@[i as int]);
        sum = clamped_add(sum, *rows.record_at(i));
        i = i + 1;
    }
    assert(rows@.subrange(0, rows@.len() as int) =~= rows@);
    sum
}

/// The audit after the withdrawable counters were checked: withdrawable funds come from
/// settled earnings alone, so in all there is never more of them than was ever earned.
pub open spec fn withdrawables_compared(a: Audit, rows: Seq<WithdrawableState>) -> Audit {
    let (checked, sum) = withdrawables_checked(a, rows);
    let earned = clamped_total(a.earned);
    noted_if(
        checked,
        sum > earned,
        "withdrawable.unbacked_total"@,
        Seq::empty(),
        figures2("withdrawable_total="@, sum, ", earned_total="@, earned),
    )
}

// ---------------------------------------------------------------- projects

/// The amount of a budget record; zero where it holds no number.
pub open spec fn budget_amount(
    budgets: Rows<Tree>,
    project: Seq<char>,
    field: Seq<char>,
) -> i64 {
    match lookup(budgets, project) {
        Some(state) => match state.number(field) {
            Some(n) => n,
            None => 0,
        },
        None => 0,
    }
}

fn read_budget(budgets: &Table<Json>, project: &str, field: &str) -> (r: i64)
    ensures
        r == budget_amount(budgets@, project@, field@),
{
    match budgets.get(project) {
        Some(state) => match state.number(field) {
            Some(n) => n,
            None => 0,
        },
        None => 0,
    }
}

/// The audit after each project's budget was compared: what is reserved must be exact, and
/// what is spent must not be too little.
pub open spec fn projects_compared(a: Audit, projects: Seq<Seq<char>>, budgets: Rows<Tree>) -> Audit
    decreases projects.len(),
{
    if projects.len() == 0 {
        a
    } else {
        let before = projects_compared(a, projects.drop_last(), budgets);
        let project = projects.last();
        let reserved = budget_amount(budgets, project, "reservedMinor"@);
        let spent = budget_amount(budgets, project, "spentMinor"@);
        let want_reserved = amount_in(a.project_reserved, project);
        let want_spent = amount_in(a.project_spent, project);
        noted_if(
            noted_if(
                before,
                reserved != want_reserved,
                "project.reserved_mismatch"@,
                project,
                figures2("stored="@, reserved as int, ", expected="@, want_reserved as int),
            ),
            spent < want_spent,
            "project.spent_undercount"@,
            project,
            figures2("stored="@, spent as int, ", minimum="@, want_spent as int),
        )
    }
}

proof fn lemma_projects_keep(a: Audit, projects: Seq<Seq<char>>, budgets: Rows<Tree>)
    ensures
        projects_compared(a, projects, budgets) == (Audit {
            findings: projects_compared(a, projects, budgets).findings,
            ..a
        }),
    decreases projects.len(),
{
    if projects.len() > 0 {
        lemma_projects_keep(a, projects.drop_last(), budgets);
    }
}

/// The projects that records or budgets name.
pub open spec fn known_projects(a: Audit, budgets: Rows<Tree>) -> Seq<Seq<char>> {
    ascending_once(keys_of(a.project_reserved) + keys_of(a.project_spent) + keys_of(budgets))
}

fn compare_projects(a: &mut Auditor, budgets: &Table<Json>)
    ensures
        final(a)@ == projects_compared(old(a)@, known_projects(old(a)@, budgets@), budgets@),
{
    let mut keys: Vec<String> = Vec::new();
    add_keys(&mut keys, &a.project_reserved);
    add_keys(&mut keys, &a.project_spent);
    let ghost start_keys = texts(keys@);
    let mut k: usize = 0;
    assert(texts(keys@) =~= start_keys + keys_of(budgets@).subrange(0, 0));
    while k < budgets.len()
        invariant
            k <= budgets@.len(),
            texts(keys@) == start_keys + keys_of(budgets@).subrange(0, k as int),
        decreases budgets@.len() - k,
    {
        let ghost before = keys@;
        keys.push(budgets.key_at(k).to_owned());
        assert(texts(keys@) =~= texts(before).push(budgets@[k as int].0));
        assert(keys_of(budgets@).subrange(0, k + 1) =~= keys_of(budgets@).subrange(
            0,
            k as int,
        ).push(budgets@[k as int].0));
        assert(texts(keys@) =~= start_keys + keys_of(budgets@).subrange(0, k + 1));
        k = k + 1;
    }
    assert(keys_of(budgets@).subrange(0, budgets@.len() as int) =~= keys_of(budgets@));
    assert(texts(keys@) =~= keys_of(a@.project_reserved) + keys_of(a@.project_spent) + keys_of(
        budgets@,
    ));
    let projects = sort_once(&keys);
    let ghost start = a@;
    let ghost all = texts(projects@);
    let mut i: usize = 0;
    assert(all.subrange(0, 0) =~= Seq::empty());
    while i < projects.len()
        invariant
            i <= projects@.len(),
            all == texts(projects@),
            a@ == projects_compared(start, all.subrange(0, i as int), budgets@),
        decreases projects@.len() - i,
    {
        let ghost upto = all.subrange(0, i + 1);
        proof {
            assert(upto.drop_last() =~= all.subrange(0, i as int));
            assert(upto.last() == projects@[i as int]@);
            lemma_projects_keep(start, all.subrange(0, i as int), budgets@);
        }
        let project = projects[i].as_str();
        let reserved: i64 = read_budget(budgets, project, "reservedMinor");
        let spent: i64 = read_budget(budgets, project, "spentMinor");
        let want_reserved: i64 = match a.project_reserved.get(project) {
            Some(n) => *n,
            None => 0,
        };
        let want_spent: i64 = match a.project_spent.get(project) {
            Some(n) => *n,
            None => 0,
        };
        if reserved != want_reserved {
            let detail = write_figures2("stored=", reserved, ", expected=", want_reserved);
            a.note("project.reserved_mismatch", project, detail.as_str());
        }
        if spent < want_spent {
            let detail = write_figures2("stored=", spent, ", minimum=", want_spent);
            a.note("project.spent_undercount", project, detail.as_str());
        }
        i = i + 1;
    }
    assert(all.subrange(0, all.len() as int) =~= all);
}

// ---------------------------------------------------------------- the whole

/// Everything that a reconciliation reads, as the storage scans give it.
pub struct Scan {
    pub holds: Vec<(String, Option<Hold>)>,
    pub pools: Vec<(String, Option<Pool>)>,
    pub reservations: Vec<(String, Option<Reservation>)>,
    pub live_debits: Vec<(String, Option<LiveDebit>)>,
    pub payouts: Vec<(String, Option<Payout>)>,
    pub held: Vec<(String, String)>,
    pub payout_held: Vec<(String, String)>,
    pub withdrawable: Vec<WithdrawableRow>,
    pub spent: Vec<(String, String)>,
    pub earned: Vec<(String, String)>,
    pub budgets: Table<Json>,
}

/// What the records alone say: every hold, pool, reservation and live debit replayed.
pub open spec fn records_replayed(scan: Scan) -> Audit {
    debits_replayed(
        reservations_replayed(
            pools_replayed(
                holds_replayed(fresh_audit(), scanned(scan.holds@)),
                scanned(scan.pools@),
            ),
            scanned(scan.reservations@),
        ),
        scanned(scan.live_debits@),
    )
}

/// The whole audit: the records replayed, and every stored counter compared with them.
pub open spec fn reconciled(scan: Scan) -> Audit {
    let records = records_replayed(scan);
    let pools = reserved_compared(records, scanned(scan.pools@));
    let held = counters_compared(pools, pools.held, raw_of(scan.held@), Counter::Held);
    let payouts = payouts_replayed(held, scanned(scan.payouts@));
    let payout_held = counters_compared(
        payouts,
        payouts.payout_held,
        raw_of(scan.payout_held@),
        Counter::PayoutHeld,
    );
    let withdrawable = withdrawables_compared(payout_held, withdrawables_of(scan.withdrawable@));
    let spent = counters_compared(
        withdrawable,
        withdrawable.spent,
        raw_of(scan.spent@),
        Counter::Spent,
    );
    let earned = counters_compared(spent, spent.earned, raw_of(scan.earned@), Counter::Earned);
    projects_compared(earned, known_projects(earned, scan.budgets@), scan.budgets@)
}

/// How many records of a scan can be read.
pub open spec fn readable<T>(rows: Rows<Option<T>>) -> int
    decreases rows.len(),
{
    if rows.len() == 0 {
        0
    } else {
        readable(rows.drop_last()) + if rows.last().1 is Some {
            1int
        } else {
            0int
        }
    }
}

/// Whether a record of a scan is a well-formed active hold.
pub open spec fn counts_as_active(hold: Option<HoldState>) -> bool {
    match hold {
        Some(hold) => hold.payer_user_id.len() > 0 && hold.max_amount > 0 && is_active(hold),
        None => false,
    }
}

/// How many well-formed active holds a scan has.
pub open spec fn active_count(rows: Rows<Option<HoldState>>) -> int
    decreases rows.len(),
{
    if rows.len() == 0 {
        0
    } else {
        active_count(rows.drop_last()) + if counts_as_active(rows.last().1) {
            1int
        } else {
            0int
        }
    }
}

/// Whether a record of a scan is a pending payout.
pub open spec fn is_pending(payout: Option<PayoutState>) -> bool {
    match payout {
        Some(payout) => payout.status == "pending"@,
        None => false,
    }
}

/// How many pending payouts a scan has.
pub open spec fn pending_count(rows: Rows<Option<PayoutState>>) -> int
    decreases rows.len(),
{
    if rows.len() == 0 {
        0
    } else {
        pending_count(rows.drop_last()) + if is_pending(rows.last().1) {
            1int
        } else {
            0int
        }
    }
}

/// What a reconciliation reports.
pub struct Report {
    pub healthy: bool,
    pub hold_count: usize,
    pub active_hold_count: usize,
    pub payout_count: usize,
    pub pending_payout_count: usize,
    pub payer_count: usize,
    pub project_count: usize,
    pub issues: Vec<Issue>,
}

/// How many findings a report holds at most.
pub open spec fn issue_limit(asked: i64) -> int {
    if asked <= 0 {
        100
    } else if asked <= 1000 {
        asked as int
    } else {
        1000
    }
}

fn count_holds(list: &Vec<(String, Option<Hold>)>) -> (r: (usize, usize))
    ensures
        r.0 == readable(scanned(list@)),
        r.1 == active_count(scanned(list@)),
{
    let ghost rows = scanned(list@);
    let mut all: usize = 0;
    let mut active: usize = 0;
    let mut i: usize = 0;
    assert(rows.subrange(0, 0) =~= Seq::empty());
    while i < list.len()
        invariant
            i <= list@.len(),
            rows == scanned(list@),
            all <= i,
            active <= i,
            all == readable(rows.subrange(0, i as int)),
            active == active_count(rows.subrange(0, i as int)),
        decreases list@.len() - i,
    {
        let ghost upto = rows.subrange(0, i + 1);
        assert(upto.drop_last() =~= rows.subrange(0, i as int));
        assert(upto.last() == (list@[i as int].0@, seen(list@[i as int].1)));
        match &list[i].1 {
            Some(hold) => {
                all = all + 1;
                if !hold.payer_user_id.as_str().is_empty() && hold.max_amount > 0 && (same(
                    hold.status.as_str(),
                    "open",
                ) || same(hold.status.as_str(), "running")) {
                    active = active + 1;
                }
            },
            None => {},
        }
        i = i + 1;
    }
    assert(rows.subrange(0, rows.len() as int) =~= rows);
    (all, active)
}

fn count_payouts(list: &Vec<(String, Option<Payout>)>) -> (r: (usize, usize))
    ensures
        r.0 == readable(scanned(list@)),
        r.1 == pending_count(scanned(list@)),
{
    let ghost rows = scanned(list@);
    let mut all: usize = 0;
    let mut pending: usize = 0;
    let mut i: usize = 0;
    assert(rows.subrange(0, 0) =~= Seq::empty());
    while i < list.len()
        invariant
            i <= list@.len(),
            rows == scanned(list@),
            all <= i,
            pending <= i,
            all == readable(rows.subrange(0, i as int)),
            pending == pending_count(rows.subrange(0, i as int)),
        decreases list@.len() - i,
    {
        let ghost upto = rows.subrange(0, i + 1);
        assert(upto.drop_last() =~= rows.subrange(0, i as int));
        assert(upto.last() == (list@[i as int].0@, seen(list@[i as int].1)));
        match &list[i].1 {
            Some(payout) => {
                all = all + 1;
                if same(payout.status.as_str(), "pending") {
                    pending = pending + 1;
                }
            },
            None => {},
        }
        i = i + 1;
    }
    assert(rows.subrange(0, rows.len() as int) =~= rows);
    (all, pending)
}

/// Replay every finance record and compare the stored counters, as the platform owner.
pub fn reconcile_financial_system(caller: &str, max_issues: i64, scan: &Scan) -> (r: Result<
    Report,
    String,
>)
    ensures
        match r {
            Ok(report) => {
                let audit = reconciled(*scan);
                let records = records_replayed(*scan);
                &&& caller@ == platform_owner()
                &&& findings_of(report.issues@) == first_of(audit.findings, issue_limit(max_issues))
                &&& report.healthy == (audit.findings.len() == 0)
                &&& report.hold_count == readable(scanned(scan.holds@))
                &&& report.active_hold_count == active_count(scanned(scan.holds@))
                &&& report.payout_count == readable(scanned(scan.payouts@))
                &&& report.pending_payout_count == pending_count(scanned(scan.payouts@))
                &&& report.payer_count == records.held.len()
                &&& report.project_count == ascending_once(
                    keys_of(records.project_reserved) + keys_of(records.project_spent),
                ).len()
            },
            Err(e) => caller@ != platform_owner() && e@ == "access denied"@,
        },
{
    if !same(caller, "1@global") {
        return Err("access denied".to_owned());
    }
    let mut a = Auditor::new();
    replay_holds(&mut a, &scan.holds);
    replay_pools(&mut a, &scan.pools);
    replay_reservations(&mut a, &scan.reservations);
    replay_debits(&mut a, &scan.live_debits);
    let payer_count: usize = a.held.len();
    let projects = both_keys(&a.project_reserved, &a.project_spent);
    let project_count: usize = projects.len();
    proof {
        assert(texts(projects@).len() == projects@.len());
    }
    compare_reserved(&mut a, &scan.pools);
    let held = a.held.copy();
    compare_counters(&mut a, &held, &scan.held, Counter::Held);
    replay_payouts(&mut a, &scan.payouts);
    let payout_held = a.payout_held.copy();
    compare_counters(&mut a, &payout_held, &scan.payout_held, Counter::PayoutHeld);
    let earned_total: i64 = add_up(&a.earned);
    let withdrawable_total: i64 = check_withdrawables(&mut a, &scan.withdrawable);
    if withdrawable_total > earned_total {
        let detail = write_figures2(
            "withdrawable_total=",
            withdrawable_total,
            ", earned_total=",
            earned_total,
        );
        proof {
            reveal_strlit("");
            assert(""@ =~= Seq::<char>::empty());
        }
        a.note("withdrawable.unbacked_total", "", detail.as_str());
    }
    let spent = a.spent.copy();
    compare_counters(&mut a, &spent, &scan.spent, Counter::Spent);
    let earned = a.earned.copy();
    compare_counters(&mut a, &earned, &scan.earned, Counter::Earned);
    compare_projects(&mut a, &scan.budgets);
    let (hold_count, active_hold_count) = count_holds(&scan.holds);
    let (payout_count, pending_payout_count) = count_payouts(&scan.payouts);
    let limit: usize = if max_issues <= 0 {
        100
    } else if max_issues <= 1000 {
        max_issues as usize
    } else {
        1000
    };
    let mut issues = a.issues;
    let ghost whole = issues@;
    proof {
        assert(findings_of(whole).len() == whole.len());
    }
    if limit < issues.len() {
        issues.truncate(limit);
        assert(findings_of(issues@) =~= findings_of(whole).subrange(0, limit as int));
    }
    Ok(
        Report {
            healthy: issues.len() == 0,
            hold_count,
            active_hold_count,
            payout_count,
            pending_payout_count,
            payer_count,
            project_count,
            issues,
        },
    )
}

/// The identifier in a scanned key: what stands between the prefix and the suffix of its
/// family.
pub fn record_id(key: &str, prefix: &str, suffix: &str) -> (r: Option<String>)
    ensures
        match r {
            Some(id) => key@ == prefix@ + id@ + suffix@,
            None => forall|id: Seq<char>| key@ != #[trigger] (prefix@ + id + suffix@),
        },
{
    match strip_prefix(key, prefix) {
        None => {
            proof {
                assert forall|id: Seq<char>| key@ != #[trigger] (prefix@ + id + suffix@) by {
                    if key@ == prefix@ + id + suffix@ {
                        assert(key@.subrange(0, prefix@.len() as int) =~= prefix@);
                    }
                }
            }
            None
        },
        Some(rest) => match strip_suffix(rest, suffix) {
            None => {
                proof {
                    assert forall|id: Seq<char>| key@ != #[trigger] (prefix@ + id + suffix@) by {
                        if key@ == prefix@ + id + suffix@ {
                            assert(rest@ =~= id + suffix@);
                            assert(rest@.subrange(
                                rest@.len() - suffix@.len(),
                                rest@.len() as int,
                            ) =~= suffix@);
                        }
                    }
                }
                None
            },
            Some(id) => {
                proof {
                    assert(rest@ =~= id@ + suffix@);
                    assert(key@ =~= prefix@ + id@ + suffix@);
                }
                Some(id.to_owned())
            },
        },
    }
}

} // verus!
