//! Reading a ledger for its reconciliation.
use vstd::prelude::*;

use crate::decimal::{decimal, law_written_numbers_read_back, write_i64};
use crate::finance::audit_laws::{counters_of, found, held, payout_held};
use crate::finance::ledger::{
    Hold, Ledger, LiveDebit, Payout, Pool, Reservation, Wallet,
};
use crate::finance::reconcile::{
    raw_of, scanned, seen, withdrawables_of, Counter, Scan, WithdrawableRow, WithdrawableState,
};
use crate::finance::reconcile_laws::shows;
use crate::table::{Rows, Table};

verus! {

broadcast use vstd::string::group_string_axioms;

/// A record that a scan hands out.
pub trait Scanned: View + Sized {
    /// A copy of the record.
    fn duplicate(&self) -> (r: Self)
        ensures
            r@ == self@,
    ;
}

impl Scanned for Hold {
    fn duplicate(&self) -> (r: Self) {
        self.copy()
    }
}

impl Scanned for Pool {
    fn duplicate(&self) -> (r: Self) {
        self.copy()
    }
}

impl Scanned for Reservation {
    fn duplicate(&self) -> (r: Self) {
        self.copy()
    }
}

impl Scanned for LiveDebit {
    fn duplicate(&self) -> (r: Self) {
        self.copy()
    }
}

impl Scanned for Payout {
    fn duplicate(&self) -> (r: Self) {
        self.copy()
    }
}

fn scan_records<V: Scanned>(table: &Table<V>) -> (r: Vec<(String, Option<V>)>)
    ensures
        scanned(r@) == found(table@),
{
    let mut out: Vec<(String, Option<V>)> = Vec::new();
    let mut i: usize = 0;
    while i < table.len()
        invariant
            i <= table@.len(),
            out@.len() == i,
            forall|j: int|
                0 <= j < i ==> (#[trigger] out@[j]).0@ == table@[j].0 && seen(out@[j].1) == Some(
                    table@[j].1,
                ),
        decreases table@.len() - i,
    {
        out.push((table.key_at(i).to_owned(), Some(table.record_at(i).duplicate())));
        i = i + 1;
    }
    assert(scanned(out@) =~= found(table@));
    out
}

/// The figure of a wallet that a counter keeps.
pub open spec fn figure_of(counter: Counter) -> spec_fn(Wallet) -> i64 {
    match counter {
        Counter::Held => held(),
        Counter::PayoutHeld => payout_held(),
        Counter::Spent => |w: Wallet| w.spent,
        Counter::Earned => |w: Wallet| w.earned,
    }
}

fn scan_counters(wallets: &Table<Wallet>, counter: Counter) -> (r: Vec<(String, String)>)
    ensures
        raw_of(r@) == counters_of(wallets@, figure_of(counter)),
{
    let ghost goal = counters_of(wallets@, figure_of(counter));
    let mut out: Vec<(String, String)> = Vec::new();
    let mut i: usize = 0;
    while i < wallets.len()
        invariant
            i <= wallets@.len(),
            goal == counters_of(wallets@, figure_of(counter)),
            out@.len() == i,
            forall|j: int|
                0 <= j < i ==> ((#[trigger] out@[j]).0@, out@[j].1@) == goal[j],
        decreases wallets@.len() - i,
    {
        let w: Wallet = *wallets.record_at(i);
        let figure: i64 = match counter {
            Counter::Held => w.held,
            Counter::PayoutHeld => w.payout_held,
            Counter::Spent => w.spent,
            Counter::Earned => w.earned,
        };
        assert(goal[i as int] == (wallets@[i as int].0, decimal(figure as int)));
        out.push((wallets.key_at(i).to_owned(), write_i64(figure)));
        i = i + 1;
    }
    assert(raw_of(out@) =~= goal);
    out
}

/// What each user may withdraw, and has.
pub open spec fn withdrawables_in(wallets: Rows<Wallet>) -> Seq<WithdrawableState> {
    wallets.map_values(
        |row: (Seq<char>, Wallet)|
            WithdrawableState {
                user_id: row.0,
                withdrawable: row.1.withdrawable,
                available: row.1.balance,
            },
    )
}

fn scan_withdrawables(wallets: &Table<Wallet>) -> (r: Vec<WithdrawableRow>)
    ensures
        withdrawables_of(r@) == withdrawables_in(wallets@),
{
    let ghost goal = withdrawables_in(wallets@);
    let mut out: Vec<WithdrawableRow> = Vec::new();
    let mut i: usize = 0;
    while i < wallets.len()
        invariant
            i <= wallets@.len(),
            goal == withdrawables_in(wallets@),
            out@.len() == i,
            forall|j: int| 0 <= j < i ==> (#[trigger] out@[j])@ == goal[j],
        decreases wallets@.len() - i,
    {
        let w: Wallet = *wallets.record_at(i);
        proof {
            law_written_numbers_read_back(w.withdrawable);
        }
        let row = WithdrawableRow {
            user_id: wallets.key_at(i).to_owned(),
            raw: write_i64(w.withdrawable),
            available: w.balance,
        };
        assert(row@ == goal[i as int]);
        out.push(row);
        i = i + 1;
    }
    assert(withdrawables_of(out@) =~= goal);
    out
}

/// Everything of a ledger that a reconciliation reads.
pub fn scan_ledger(ledger: &Ledger) -> (r: Scan)
    ensures
        scanned(r.holds@) == found(ledger@.holds),
        scanned(r.pools@) == found(ledger@.pools),
        scanned(r.reservations@) == found(ledger@.reservations),
        scanned(r.live_debits@) == found(ledger@.live_debits),
        scanned(r.payouts@) == found(ledger@.payouts),
        raw_of(r.held@) == counters_of(ledger@.wallets, figure_of(Counter::Held)),
        raw_of(r.payout_held@) == counters_of(ledger@.wallets, figure_of(Counter::PayoutHeld)),
        withdrawables_of(r.withdrawable@) == withdrawables_in(ledger@.wallets),
        raw_of(r.spent@) == counters_of(ledger@.wallets, figure_of(Counter::Spent)),
        raw_of(r.earned@) == counters_of(ledger@.wallets, figure_of(Counter::Earned)),
        r.budgets@ == ledger@.budgets,
        shows(r, ledger@),
{
    let r = Scan {
        holds: scan_records(&ledger.holds),
        pools: scan_records(&ledger.pools),
        reservations: scan_records(&ledger.reservations),
        live_debits: scan_records(&ledger.live_debits),
        payouts: scan_records(&ledger.payouts),
        held: scan_counters(&ledger.wallets, Counter::Held),
        payout_held: scan_counters(&ledger.wallets, Counter::PayoutHeld),
        withdrawable: scan_withdrawables(&ledger.wallets),
        spent: scan_counters(&ledger.wallets, Counter::Spent),
        earned: scan_counters(&ledger.wallets, Counter::Earned),
        budgets: ledger.budgets.duplicate(),
    };
    r
}

} // verus!
