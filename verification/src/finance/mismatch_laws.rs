//! That a reconciliation of books finds nothing where every counter agrees with the records, and
//! that it finds each counter that does not.
use vstd::prelude::*;

use crate::finance::audit_laws::{
    counters_of, found, lemma_counters_read, lemma_no_mismatch, lemma_payouts_expected,
    payouts_are_valid,
};
use crate::finance::earning_laws::earning;
use crate::finance::laws::{backing, payout_backing, spending};
use crate::finance::ledger::{no_wallet, wallet_of, Books, PayoutState, PoolState, Wallet};
use crate::finance::reconcile::{
    clamped_total, counters_compared, counters_read, known_projects, payouts_replayed,
    projects_compared, raw_of, reconciled, records_replayed, reserved_compared, scanned,
    users_compared, withdrawables_checked, withdrawables_compared, withdrawables_of, Audit, Counter,
    Finding, Scan, WithdrawableState,
};
use crate::finance::reconcile_laws::{
    law_the_replay_expects_what_the_records_say, lemma_scan_tells, paid_in_all, project_backing,
    project_spending, records_are_sound, shows, slice_backing, sums_fit,
};
use crate::finance::scan::figure_of;
use crate::finance::settlement::{amount_in, keys_of, plain_amount};
use crate::json::Tree;
use crate::order::{ascending, ascending_once, collapsed, law_sorting_orders_and_keeps};
use crate::table::{distinct, lemma_lookup_row, lemma_row_from, lookup, total, Rows};

verus! {

// ---------------------------------------------------------------- what steps leave alone

/// Whether an audit has the findings of another and perhaps more, and expects the same.
pub open spec fn adds(a: Audit, b: Audit) -> bool {
    &&& b == (Audit { findings: b.findings, ..a })
    &&& extends(a.findings, b.findings)
}

/// Whether a list begins with another.
pub open spec fn extends(a: Seq<Finding>, b: Seq<Finding>) -> bool {
    &&& a.len() <= b.len()
    &&& forall|i: int| 0 <= i < a.len() ==> #[trigger] b[i] == a[i]
}

/// Whether a finding of a code is about a record or user.
pub open spec fn tells_of(findings: Seq<Finding>, code: Seq<char>, reference: Seq<char>) -> bool {
    exists|i: int|
        0 <= i < findings.len() && (#[trigger] findings[i]).code == code && findings[i].reference
            == reference
}

/// What findings tell, longer ones tell too.
pub proof fn lemma_still_tells(
    a: Seq<Finding>,
    b: Seq<Finding>,
    code: Seq<char>,
    reference: Seq<char>,
)
    requires
        extends(a, b),
        tells_of(a, code, reference),
    ensures
        tells_of(b, code, reference),
{
    let i = choose|i: int|
        0 <= i < a.len() && (#[trigger] a[i]).code == code && a[i].reference == reference;
    assert(b[i] == a[i]);
}

/// Comparing reserved amounts changes only the findings.
pub proof fn lemma_reserved_adds(a: Audit, rows: Rows<Option<PoolState>>)
    ensures
        adds(a, reserved_compared(a, rows)),
    decreases rows.len(),
{
    if rows.len() > 0 {
        lemma_reserved_adds(a, rows.drop_last());
    }
}

proof fn lemma_reading_adds(a: Audit, rows: Rows<Seq<char>>, kind: Counter)
    ensures
        adds(a, counters_read(a, rows, kind).0),
    decreases rows.len(),
{
    if rows.len() > 0 {
        lemma_reading_adds(a, rows.drop_last(), kind);
    }
}

proof fn lemma_users_add(
    a: Audit,
    users: Seq<Seq<char>>,
    expected: Rows<i64>,
    actual: Rows<i64>,
    kind: Counter,
)
    ensures
        adds(a, users_compared(a, users, expected, actual, kind)),
    decreases users.len(),
{
    if users.len() > 0 {
        lemma_users_add(a, users.drop_last(), expected, actual, kind);
    }
}

proof fn lemma_counters_add(a: Audit, expected: Rows<i64>, rows: Rows<Seq<char>>, kind: Counter)
    ensures
        adds(a, counters_compared(a, expected, rows, kind)),
{
    lemma_reading_adds(a, rows, kind);
    let (checked, actual) = counters_read(a, rows, kind);
    lemma_users_add(
        checked,
        ascending_once(keys_of(expected) + keys_of(actual)),
        expected,
        actual,
        kind,
    );
}

/// Payouts change only what is kept back and the findings.
pub proof fn lemma_payouts_add(a: Audit, rows: Rows<Option<PayoutState>>)
    ensures
        payouts_replayed(a, rows) == (Audit {
            findings: payouts_replayed(a, rows).findings,
            payout_held: payouts_replayed(a, rows).payout_held,
            ..a
        }),
        extends(a.findings, payouts_replayed(a, rows).findings),
    decreases rows.len(),
{
    if rows.len() > 0 {
        lemma_payouts_add(a, rows.drop_last());
    }
}

/// Checking withdrawable amounts changes only the findings.
pub proof fn lemma_withdrawables_add(a: Audit, rows: Seq<WithdrawableState>)
    ensures
        adds(a, withdrawables_checked(a, rows).0),
        adds(a, withdrawables_compared(a, rows)),
        extends(withdrawables_checked(a, rows).0.findings, withdrawables_compared(a, rows).findings),
    decreases rows.len(),
{
    if rows.len() > 0 {
        lemma_withdrawables_add(a, rows.drop_last());
    }
}

/// Comparing projects changes only the findings.
pub proof fn lemma_projects_add(a: Audit, projects: Seq<Seq<char>>, budgets: Rows<Tree>)
    ensures
        adds(a, projects_compared(a, projects, budgets)),
    decreases projects.len(),
{
    if projects.len() > 0 {
        lemma_projects_add(a, projects.drop_last(), budgets);
    }
}

// ---------------------------------------------------------------- every key is compared

proof fn lemma_collapsing_keeps(list: Seq<Seq<char>>, text: Seq<char>)
    ensures
        collapsed(list).contains(text) == list.contains(text),
    decreases list.len(),
{
    if list.len() > 0 {
        let front = list.drop_last();
        lemma_collapsing_keeps(front, text);
        assert(list =~= front.push(list.last()));
        if list.contains(text) {
            let i = choose|i: int| 0 <= i < list.len() && list[i] == text;
            if i < front.len() {
                assert(front[i] == text);
                let j = choose|j: int| 0 <= j < collapsed(front).len() && collapsed(front)[j] == text;
                assert(collapsed(list)[j] == text);
            } else {
                assert(collapsed(list)[collapsed(list).len() - 1] == text);
            }
        }
        if collapsed(list).contains(text) {
            let j = choose|j: int| 0 <= j < collapsed(list).len() && collapsed(list)[j] == text;
            if j < collapsed(front).len() {
                assert(collapsed(front)[j] == text);
                let i = choose|i: int| 0 <= i < front.len() && front[i] == text;
                assert(list[i] == text);
            } else {
                assert(list[list.len() - 1] == text);
            }
        }
    }
}

/// Sorting a list and dropping what repeats keeps every text of it and brings in none.
pub proof fn law_sorting_once_keeps_every_text(list: Seq<Seq<char>>, text: Seq<char>)
    ensures
        ascending_once(list).contains(text) == list.contains(text),
{
    law_sorting_orders_and_keeps(list);
    lemma_collapsing_keeps(ascending(list), text);
    assert(ascending(list).to_multiset().count(text) == list.to_multiset().count(text));
    broadcast use vstd::seq_lib::group_to_multiset_ensures;

}

/// The keys of rows are those under which there is a row.
pub proof fn lemma_key_is_listed<T>(rows: Rows<T>, key: Seq<char>)
    ensures
        keys_of(rows).contains(key) == (lookup(rows, key) is Some),
{
    lemma_row_from(rows, key, 0);
    match crate::table::row_from(rows, key, 0) {
        Some(i) => {
            assert(keys_of(rows)[i] == key);
        },
        None => {
            if keys_of(rows).contains(key) {
                let i = choose|i: int| 0 <= i < keys_of(rows).len() && keys_of(rows)[i] == key;
                assert(rows[i].0 == key);
            }
        },
    }
}

proof fn lemma_users_tell(
    a: Audit,
    users: Seq<Seq<char>>,
    expected: Rows<i64>,
    actual: Rows<i64>,
    kind: Counter,
    user: Seq<char>,
)
    requires
        users.contains(user),
        amount_in(actual, user) != amount_in(expected, user),
    ensures
        tells_of(users_compared(a, users, expected, actual, kind).findings, kind.mismatch(), user),
    decreases users.len(),
{
    let front = users.drop_last();
    let before = users_compared(a, front, expected, actual, kind);
    let after = users_compared(a, users, expected, actual, kind);
    if users.last() == user {
        assert(after.findings[before.findings.len() as int].code == kind.mismatch());
    } else {
        let i = choose|i: int| 0 <= i < users.len() && users[i] == user;
        assert(front[i] == user);
        lemma_users_tell(a, front, expected, actual, kind, user);
        lemma_still_tells(before.findings, after.findings, kind.mismatch(), user);
    }
}

proof fn lemma_counter_tells(
    a: Audit,
    expected: Rows<i64>,
    wallets: Rows<Wallet>,
    counter: spec_fn(Wallet) -> i64,
    kind: Counter,
    user: Seq<char>,
)
    requires
        distinct(wallets),
        counter(no_wallet()) == 0,
        forall|i: int| 0 <= i < wallets.len() ==> kind.accepts(counter((#[trigger] wallets[i]).1)),
        counter(wallet_of(wallets, user)) != amount_in(expected, user),
    ensures
        tells_of(
            counters_compared(a, expected, counters_of(wallets, counter), kind).findings,
            kind.mismatch(),
            user,
        ),
{
    lemma_counters_read(a, wallets, counter, kind);
    let actual = counters_read(a, counters_of(wallets, counter), kind).1;
    let list = keys_of(expected) + keys_of(actual);
    assert(amount_in(actual, user) == counter(wallet_of(wallets, user)));
    lemma_key_is_listed(expected, user);
    lemma_key_is_listed(actual, user);
    if keys_of(expected).contains(user) {
        let i = choose|i: int| 0 <= i < keys_of(expected).len() && keys_of(expected)[i] == user;
        assert(list[i] == user);
    } else {
        let i = choose|i: int| 0 <= i < keys_of(actual).len() && keys_of(actual)[i] == user;
        assert(list[keys_of(expected).len() + i] == user);
    }
    law_sorting_once_keeps_every_text(list, user);
    lemma_users_tell(a, ascending_once(list), expected, actual, kind, user);
}

proof fn lemma_counter_agrees(
    a: Audit,
    expected: Rows<i64>,
    wallets: Rows<Wallet>,
    counter: spec_fn(Wallet) -> i64,
    kind: Counter,
)
    requires
        distinct(wallets),
        counter(no_wallet()) == 0,
        forall|i: int| 0 <= i < wallets.len() ==> kind.accepts(counter((#[trigger] wallets[i]).1)),
        forall|user: Seq<char>|
            counter(#[trigger] wallet_of(wallets, user)) == amount_in(expected, user),
    ensures
        counters_compared(a, expected, counters_of(wallets, counter), kind) == a,
{
    lemma_counters_read(a, wallets, counter, kind);
    let actual = counters_read(a, counters_of(wallets, counter), kind).1;
    assert forall|user: Seq<char>| #[trigger] amount_in(actual, user) == amount_in(expected, user) by {
        assert(amount_in(actual, user) == counter(wallet_of(wallets, user)));
    }
    lemma_no_mismatch(
        a,
        ascending_once(keys_of(expected) + keys_of(actual)),
        expected,
        actual,
        kind,
    );
}

// ---------------------------------------------------------------- the whole reconciliation

/// What stands after each step of a reconciliation.
pub struct Steps {
    pub records: Audit,
    pub pools: Audit,
    pub held: Audit,
    pub payouts: Audit,
    pub payout_held: Audit,
    pub withdrawable: Audit,
    pub spent: Audit,
    pub earned: Audit,
}

/// The steps of the reconciliation of a scan.
pub open spec fn steps_of(scan: Scan) -> Steps {
    let records = records_replayed(scan);
    let pools = reserved_compared(records, scanned(scan.pools@));
    let held = counters_compared(pools, pools.held, raw_of(scan.held@), Counter::Held);
    let payouts = payouts_replayed(held, scanned(scan.payouts@));
    let payout_held = counters_compared(
        payouts,
        payouts.payout_held,
        raw_of(scan.payout_held@),
        Counter::PayoutHeld,
    );
    let withdrawable = withdrawables_compared(payout_held, withdrawables_of(scan.withdrawable@));
    let spent = counters_compared(
        withdrawable,
        withdrawable.spent,
        raw_of(scan.spent@),
        Counter::Spent,
    );
    let earned = counters_compared(spent, spent.earned, raw_of(scan.earned@), Counter::Earned);
    Steps { records, pools, held, payouts, payout_held, withdrawable, spent, earned }
}

/// What each step of a reconciliation leaves alone.
pub proof fn lemma_steps(scan: Scan)
    ensures
        ({
            let s = steps_of(scan);
            let r = reconciled(scan);
            &&& adds(s.records, s.pools)
            &&& adds(s.pools, s.held)
            &&& s.payouts == (Audit {
                findings: s.payouts.findings,
                payout_held: s.payouts.payout_held,
                ..s.held
            })
            &&& extends(s.held.findings, s.payouts.findings)
            &&& adds(s.payouts, s.payout_held)
            &&& adds(s.payout_held, s.withdrawable)
            &&& adds(s.withdrawable, s.spent)
            &&& adds(s.spent, s.earned)
            &&& adds(s.earned, r)
            &&& extends(s.pools.findings, r.findings)
            &&& extends(s.held.findings, r.findings)
            &&& extends(s.payouts.findings, r.findings)
            &&& extends(s.payout_held.findings, r.findings)
            &&& extends(s.withdrawable.findings, r.findings)
            &&& extends(s.spent.findings, r.findings)
            &&& extends(s.earned.findings, r.findings)
            &&& extends(s.records.findings, r.findings)
            &&& r == projects_compared(
                s.earned,
                known_projects(s.earned, scan.budgets@),
                scan.budgets@,
            )
        }),
{
    let s = steps_of(scan);
    lemma_reserved_adds(s.records, scanned(scan.pools@));
    lemma_counters_add(s.pools, s.pools.held, raw_of(scan.held@), Counter::Held);
    lemma_payouts_add(s.held, scanned(scan.payouts@));
    lemma_counters_add(
        s.payouts,
        s.payouts.payout_held,
        raw_of(scan.payout_held@),
        Counter::PayoutHeld,
    );
    lemma_withdrawables_add(s.payout_held, withdrawables_of(scan.withdrawable@));
    lemma_counters_add(s.withdrawable, s.withdrawable.spent, raw_of(scan.spent@), Counter::Spent);
    lemma_counters_add(s.spent, s.spent.earned, raw_of(scan.earned@), Counter::Earned);
    lemma_projects_add(s.earned, known_projects(s.earned, scan.budgets@), scan.budgets@);
}

proof fn lemma_rows_shown(scan: Scan, books: Books)
    requires
        shows(scan, books),
    ensures
        raw_of(scan.held@) == counters_of(books.wallets, figure_of(Counter::Held)),
        raw_of(scan.payout_held@) == counters_of(books.wallets, figure_of(Counter::PayoutHeld)),
        raw_of(scan.spent@) == counters_of(books.wallets, figure_of(Counter::Spent)),
        raw_of(scan.earned@) == counters_of(books.wallets, figure_of(Counter::Earned)),
{
    let w = books.wallets;
    assert forall|i: int| 0 <= i < w.len() implies {
        &&& raw_of(scan.held@)[i] == #[trigger] counters_of(w, figure_of(Counter::Held))[i]
        &&& raw_of(scan.payout_held@)[i] == counters_of(w, figure_of(Counter::PayoutHeld))[i]
        &&& raw_of(scan.spent@)[i] == counters_of(w, figure_of(Counter::Spent))[i]
        &&& raw_of(scan.earned@)[i] == counters_of(w, figure_of(Counter::Earned))[i]
    } by {
        let (user, wallet) = w[i];
    }
    assert(raw_of(scan.held@) =~= counters_of(w, figure_of(Counter::Held)));
    assert(raw_of(scan.payout_held@) =~= counters_of(w, figure_of(Counter::PayoutHeld)));
    assert(raw_of(scan.spent@) =~= counters_of(w, figure_of(Counter::Spent)));
    assert(raw_of(scan.earned@) =~= counters_of(w, figure_of(Counter::Earned)));
}

/// Where the records of books are sound, a wallet whose spending is not what the settled holds,
/// the settled runs and the live debits of its owner took is found, and so is one whose earnings
/// are not what these paid its owner.
pub proof fn law_a_wrong_spent_or_earned_counter_is_found(
    scan: Scan,
    books: Books,
    user: Seq<char>,
)
    requires
        shows(scan, books),
        records_are_sound(books.holds, books.pools, books.reservations, books.live_debits),
        sums_fit(books.holds, books.pools, books.reservations, books.live_debits),
        distinct(books.wallets),
    ensures
        wallet_of(books.wallets, user).spent != spending(books, user) ==> tells_of(
            reconciled(scan).findings,
            "spent.mismatch"@,
            user,
        ),
        wallet_of(books.wallets, user).earned != earning(books, user) ==> tells_of(
            reconciled(scan).findings,
            "earned.mismatch"@,
            user,
        ),
{
    law_the_replay_expects_what_the_records_say(scan, books, user);
    lemma_steps(scan);
    lemma_rows_shown(scan, books);
    let s = steps_of(scan);
    let r = reconciled(scan);
    if wallet_of(books.wallets, user).spent != spending(books, user) {
        lemma_counter_tells(
            s.withdrawable,
            s.withdrawable.spent,
            books.wallets,
            figure_of(Counter::Spent),
            Counter::Spent,
            user,
        );
        lemma_still_tells(s.spent.findings, r.findings, "spent.mismatch"@, user);
    }
    if wallet_of(books.wallets, user).earned != earning(books, user) {
        lemma_counter_tells(
            s.spent,
            s.spent.earned,
            books.wallets,
            figure_of(Counter::Earned),
            Counter::Earned,
            user,
        );
        lemma_still_tells(s.earned.findings, r.findings, "earned.mismatch"@, user);
    }
}

/// Where the records of books are sound and no wallet holds less than nothing, a wallet that does
/// not hold exactly what its owner's active holds and open pools set aside is found.
pub proof fn law_a_wrong_held_counter_is_found(scan: Scan, books: Books, user: Seq<char>)
    requires
        shows(scan, books),
        records_are_sound(books.holds, books.pools, books.reservations, books.live_debits),
        sums_fit(books.holds, books.pools, books.reservations, books.live_debits),
        distinct(books.wallets),
        forall|i: int| 0 <= i < books.wallets.len() ==> (#[trigger] books.wallets[i]).1.held >= 0,
        wallet_of(books.wallets, user).held != backing(books, user),
    ensures
        tells_of(reconciled(scan).findings, "held.mismatch"@, user),
{
    law_the_replay_expects_what_the_records_say(scan, books, user);
    lemma_steps(scan);
    lemma_rows_shown(scan, books);
    let s = steps_of(scan);
    lemma_counter_tells(
        s.pools,
        s.pools.held,
        books.wallets,
        figure_of(Counter::Held),
        Counter::Held,
        user,
    );
    lemma_still_tells(s.held.findings, reconciled(scan).findings, "held.mismatch"@, user);
}

/// A wallet that does not keep back exactly what its owner's pending payouts ask for is found.
pub proof fn law_a_wrong_payout_counter_is_found(scan: Scan, books: Books, user: Seq<char>)
    requires
        shows(scan, books),
        records_are_sound(books.holds, books.pools, books.reservations, books.live_debits),
        sums_fit(books.holds, books.pools, books.reservations, books.live_debits),
        payouts_are_valid(books.payouts),
        forall|u: Seq<char>| #[trigger] total(books.payouts, payout_backing(u)) <= i64::MAX,
        distinct(books.wallets),
        forall|i: int|
            0 <= i < books.wallets.len() ==> (#[trigger] books.wallets[i]).1.payout_held >= 0,
        wallet_of(books.wallets, user).payout_held != total(books.payouts, payout_backing(user)),
    ensures
        tells_of(reconciled(scan).findings, "payout.held_mismatch"@, user),
{
    lemma_scan_tells(scan, books);
    lemma_steps(scan);
    lemma_rows_shown(scan, books);
    let s = steps_of(scan);
    lemma_payouts_expected(s.held, books.payouts);
    assert(amount_in(s.payouts.payout_held, user) == total(books.payouts, payout_backing(user)));
    lemma_counter_tells(
        s.payouts,
        s.payouts.payout_held,
        books.wallets,
        figure_of(Counter::PayoutHeld),
        Counter::PayoutHeld,
        user,
    );
    lemma_still_tells(
        s.payout_held.findings,
        reconciled(scan).findings,
        "payout.held_mismatch"@,
        user,
    );
}

// ---------------------------------------------------------------- books that agree

/// The number in a budget under a key; zero where there is none.
pub open spec fn budget_figure(budgets: Rows<Tree>, project: Seq<char>, key: Seq<char>) -> int {
    match lookup(budgets, project) {
        Some(budget) => match budget.number(key) {
            Some(n) => n as int,
            None => 0,
        },
        None => 0,
    }
}

/// What a wallet may withdraw.
pub open spec fn withdrawable() -> spec_fn(Seq<char>, Wallet) -> int {
    |user: Seq<char>, wallet: Wallet| wallet.withdrawable as int
}

/// Whether everything that books count agrees with their records.
pub open spec fn all_agrees(books: Books) -> bool {
    &&& forall|u: Seq<char>|
        (#[trigger] wallet_of(books.wallets, u)).held == backing(books, u) && wallet_of(
            books.wallets,
            u,
        ).spent == spending(books, u) && wallet_of(books.wallets, u).earned == earning(books, u)
            && wallet_of(books.wallets, u).payout_held == total(books.payouts, payout_backing(u))
    &&& forall|i: int|
        0 <= i < books.pools.len() ==> (#[trigger] books.pools[i]).1.reserved == total(
            books.reservations,
            slice_backing(books.pools[i].0),
        )
    &&& forall|i: int|
        0 <= i < books.wallets.len() ==> match (#[trigger] books.wallets[i]).1.balance {
            Some(balance) => 0 <= books.wallets[i].1.withdrawable <= balance,
            None => false,
        }
    &&& total(books.wallets, withdrawable()) <= paid_in_all(
        books.holds,
        books.reservations,
        books.live_debits,
    )
    &&& forall|p: Seq<char>|
        p.len() > 0 ==> #[trigger] budget_figure(books.budgets, p, "reservedMinor"@) == total(
            books.holds,
            project_backing(p),
        )
    &&& forall|p: Seq<char>|
        p.len() > 0 ==> #[trigger] budget_figure(books.budgets, p, "spentMinor"@) >= total(
            books.holds,
            project_spending(p),
        )
    &&& lookup(books.budgets, Seq::empty()) is None
}

proof fn lemma_reserved_agrees(a: Audit, rows: Rows<PoolState>)
    requires
        forall|i: int|
            0 <= i < rows.len() ==> (#[trigger] rows[i]).1.reserved == amount_in(
                a.pool_reserved,
                rows[i].0,
            ),
    ensures
        reserved_compared(a, found(rows)) == a,
    decreases rows.len(),
{
    if rows.len() > 0 {
        let front = rows.drop_last();
        assert forall|i: int| 0 <= i < front.len() implies (#[trigger] front[i]).1.reserved
            == amount_in(a.pool_reserved, front[i].0) by {
            assert(front[i] == rows[i]);
        }
        lemma_reserved_agrees(a, front);
        assert(found(rows).drop_last() =~= found(front));
        assert(found(rows).last() == (rows.last().0, Some(rows.last().1)));
        assert(rows[rows.len() - 1].1.reserved == amount_in(a.pool_reserved, rows.last().0));
    }
}

proof fn lemma_withdrawables_agree(
    a: Audit,
    rows: Seq<WithdrawableState>,
    wallets: Rows<Wallet>,
)
    requires
        rows.len() == wallets.len(),
        forall|i: int|
            0 <= i < wallets.len() ==> rows[i].withdrawable == (
            #[trigger] wallets[i]).1.withdrawable && rows[i].available == wallets[i].1.balance,
        forall|i: int|
            0 <= i < wallets.len() ==> match (#[trigger] wallets[i]).1.balance {
                Some(balance) => 0 <= wallets[i].1.withdrawable <= balance,
                None => false,
            },
        total(wallets, withdrawable()) <= i64::MAX,
    ensures
        withdrawables_checked(a, rows).0 == a,
        withdrawables_checked(a, rows).1 == total(wallets, withdrawable()),
        total(wallets, withdrawable()) >= 0,
    decreases rows.len(),
{
    if rows.len() > 0 {
        let front = wallets.drop_last();
        assert forall|i: int| 0 <= i < front.len() implies rows.drop_last()[i].withdrawable == (
        #[trigger] front[i]).1.withdrawable && rows.drop_last()[i].available
            == front[i].1.balance by {
            assert(front[i] == wallets[i]);
        }
        assert forall|i: int| 0 <= i < front.len() implies match (#[trigger] front[i]).1.balance {
            Some(balance) => 0 <= front[i].1.withdrawable <= balance,
            None => false,
        } by {
            assert(front[i] == wallets[i]);
        }
        let last = wallets[wallets.len() - 1].1;
        assert(match last.balance {
            Some(balance) => 0 <= last.withdrawable <= balance,
            None => false,
        });
        lemma_withdrawables_agree(a, rows.drop_last(), front);
    }
}

/// A sum of amounts that are not negative and fit is the clamped one.
pub proof fn lemma_clamping_adds(rows: Rows<i64>)
    requires
        forall|i: int| 0 <= i < rows.len() ==> (#[trigger] rows[i]).1 >= 0,
        total(rows, plain_amount()) <= i64::MAX,
    ensures
        clamped_total(rows) == total(rows, plain_amount()),
        total(rows, plain_amount()) >= 0,
    decreases rows.len(),
{
    if rows.len() > 0 {
        let front = rows.drop_last();
        assert forall|i: int| 0 <= i < front.len() implies (#[trigger] front[i]).1 >= 0 by {
            assert(front[i] == rows[i]);
        }
        assert(rows[rows.len() - 1].1 >= 0);
        lemma_clamping_adds(front);
    }
}

proof fn lemma_projects_agree(a: Audit, projects: Seq<Seq<char>>, budgets: Rows<Tree>)
    requires
        forall|p: Seq<char>|
            #[trigger] budget_figure(budgets, p, "reservedMinor"@) == amount_in(
                a.project_reserved,
                p,
            ),
        forall|p: Seq<char>|
            #[trigger] budget_figure(budgets, p, "spentMinor"@) >= amount_in(a.project_spent, p),
    ensures
        projects_compared(a, projects, budgets) == a,
    decreases projects.len(),
{
    if projects.len() > 0 {
        lemma_projects_agree(a, projects.drop_last(), budgets);
        let p = projects.last();
        assert(budget_figure(budgets, p, "reservedMinor"@) == amount_in(a.project_reserved, p));
        assert(budget_figure(budgets, p, "spentMinor"@) >= amount_in(a.project_spent, p));
    }
}

/// A reconciliation finds nothing in books whose records are sound and whose counters all agree
/// with them.
pub proof fn law_well_kept_books_reconcile(scan: Scan, books: Books)
    requires
        shows(scan, books),
        records_are_sound(books.holds, books.pools, books.reservations, books.live_debits),
        sums_fit(books.holds, books.pools, books.reservations, books.live_debits),
        payouts_are_valid(books.payouts),
        distinct(books.wallets),
        all_agrees(books),
    ensures
        reconciled(scan).findings.len() == 0,
{
    lemma_scan_tells(scan, books);
    lemma_steps(scan);
    lemma_rows_shown(scan, books);
    let s = steps_of(scan);
    let w = books.wallets;
    assert forall|i: int| 0 <= i < books.pools.len() implies (#[trigger] books.pools[i]).1.reserved
        == amount_in(s.records.pool_reserved, books.pools[i].0) by {
        assert(amount_in(s.records.pool_reserved, books.pools[i].0) == total(
            books.reservations,
            slice_backing(books.pools[i].0),
        ));
    }
    lemma_reserved_agrees(s.records, books.pools);
    assert forall|u: Seq<char>|
        figure_of(Counter::Held)(#[trigger] wallet_of(w, u)) == amount_in(s.pools.held, u)
            && figure_of(Counter::Spent)(wallet_of(w, u)) == amount_in(s.pools.spent, u)
            && figure_of(Counter::Earned)(wallet_of(w, u)) == amount_in(s.pools.earned, u) by {
        law_the_replay_expects_what_the_records_say(scan, books, u);
    }
    assert forall|u: Seq<char>| #[trigger] total(books.payouts, payout_backing(u)) <= i64::MAX by {
        assert(wallet_of(w, u).payout_held == total(books.payouts, payout_backing(u)));
    }
    lemma_payouts_expected(s.held, books.payouts);
    assert forall|u: Seq<char>|
        figure_of(Counter::PayoutHeld)(#[trigger] wallet_of(w, u)) == amount_in(
            s.payouts.payout_held,
            u,
        ) by {
        assert(amount_in(s.payouts.payout_held, u) == total(books.payouts, payout_backing(u)));
    }
    assert forall|i: int| 0 <= i < w.len() implies (#[trigger] w[i]).1.held >= 0 && w[i].1.payout_held
        >= 0 by {
        let u = w[i].0;
        lemma_lookup_row(w, i);
        assert(wallet_of(w, u) == w[i].1);
        crate::finance::reconcile_laws::lemma_sums_are_positive(
            books.holds,
            books.pools,
            books.reservations,
            books.live_debits,
            u,
        );
        assert(amount_in(s.payouts.payout_held, u) == total(books.payouts, payout_backing(u)));
    }
    lemma_counter_agrees(s.pools, s.pools.held, w, figure_of(Counter::Held), Counter::Held);
    lemma_counter_agrees(
        s.payouts,
        s.payouts.payout_held,
        w,
        figure_of(Counter::PayoutHeld),
        Counter::PayoutHeld,
    );
    let rows = withdrawables_of(scan.withdrawable@);
    assert forall|i: int| 0 <= i < w.len() implies rows[i].withdrawable == (
    #[trigger] w[i]).1.withdrawable && rows[i].available == w[i].1.balance by {
        let (user, wallet) = w[i];
    }
    lemma_withdrawables_agree(s.payout_held, rows, w);
    lemma_clamping_adds(s.payout_held.earned);
    lemma_counter_agrees(
        s.withdrawable,
        s.withdrawable.spent,
        w,
        figure_of(Counter::Spent),
        Counter::Spent,
    );
    lemma_counter_agrees(s.spent, s.spent.earned, w, figure_of(Counter::Earned), Counter::Earned);
    assert forall|p: Seq<char>|
        #[trigger] budget_figure(books.budgets, p, "reservedMinor"@) == amount_in(
            s.earned.project_reserved,
            p,
        ) by {
        if p.len() > 0 {
            assert(amount_in(s.records.project_reserved, p) == total(
                books.holds,
                project_backing(p),
            ));
        } else {
            assert(p =~= Seq::empty());
        }
    }
    assert forall|p: Seq<char>|
        #[trigger] budget_figure(books.budgets, p, "spentMinor"@) >= amount_in(
            s.earned.project_spent,
            p,
        ) by {
        if p.len() > 0 {
            assert(amount_in(s.records.project_spent, p) == total(
                books.holds,
                project_spending(p),
            ));
        } else {
            assert(p =~= Seq::empty());
        }
    }
    lemma_projects_agree(s.earned, known_projects(s.earned, scan.budgets@), scan.budgets@);
}

} // verus!
