//! Runs on a pool: reserving a slice, settling or releasing it, and live debits.
use vstd::prelude::*;

use crate::finance::holds::{charge_wallet, charged, is_past};
use crate::finance::ids::{is_finance_hash, is_finance_id, valid_finance_hash, valid_finance_id};
use crate::finance::journal::{add_amount, amounts_of, figures, no_amounts, write_figures};
use crate::finance::ledger::{
    copy_lines, journaled, lines_of, link_of, wallet_in, wallet_of, Books, Entry, JournalEntry,
    Ledger, LiveDebit, LiveDebitState, Pool, PoolState, Reservation, ReservationState,
    SettlementLine, Wallet,
};
use crate::finance::pools::{fits, pair};
use crate::finance::settlement::{
    add_participants, all_credited, amount_in, caps_of, credit_users, is_plan, keys_of,
    law_a_tally_adds_up, lemma_rows_positive, plan_caps, quote_plan, read_quote_plan, tally_lines,
    tally_of, Rules, Tally,
};
use crate::json::{no_fields, object, Json, Tree};
use crate::table::{law_lookup_after_store, lookup, stored, Rows, Table};
use crate::text::{join4, same};

verus! {

broadcast use {vstd::string::group_string_axioms, law_lookup_after_store};

/// The run that an entry of the journal is about.
pub open spec fn about_run(run: Seq<char>) -> Tree {
    no_fields().with("runId"@, Tree::Text(run))
}

fn write_about_run(run: &str) -> (r: Json)
    ensures
        r@ == about_run(run@),
{
    object().with("runId", Json::Text(run.to_owned()))
}

// ---------------------------------------------------------------- reserve

/// A request to reserve a slice of a pool for a quoted run.
pub struct ReservePoolInput {
    pub pool_id: String,
    pub payer_user_id: String,
    pub quote_id: String,
    pub run_id: String,
    pub max_amount: i64,
}

/// What a reservation answers: the reservation it made and the journal entry, or the
/// reservation as an earlier request left it.
pub enum ReservationReply {
    Changed { reservation: Reservation, journal_id: String },
    Unchanged { reservation: Reservation },
}

/// The answer of a reservation, as texts and numbers.
pub enum ReservationAnswer {
    Changed { reservation: ReservationState, journal_id: Seq<char> },
    Unchanged { reservation: ReservationState },
}

impl View for ReservationReply {
    type V = ReservationAnswer;

    open spec fn view(&self) -> ReservationAnswer {
        match self {
            ReservationReply::Changed { reservation, journal_id } => ReservationAnswer::Changed {
                reservation: reservation@,
                journal_id: journal_id@,
            },
            ReservationReply::Unchanged { reservation } => ReservationAnswer::Unchanged {
                reservation: reservation@,
            },
        }
    }
}

/// Why no run of this payer may use a pool under this authority now.
pub open spec fn pool_refusal(
    pool: PoolState,
    authority: Seq<char>,
    payer: Seq<char>,
    now: i64,
) -> Option<Seq<char>> {
    if pool.settlement_authority != authority {
        Some("caller is not this pool's settlement authority"@)
    } else if pool.payer_user_id != payer {
        Some("payer does not match pool"@)
    } else if pool.status != "open"@ {
        Some("pool is not open"@)
    } else if is_past(pool.expires_at, now as int) {
        Some("pool expired"@)
    } else {
        None
    }
}

fn refuse_pool(pool: &Pool, authority: &str, payer: &str, now: i64) -> (r: Option<String>)
    ensures
        match r {
            Some(e) => pool_refusal(pool@, authority@, payer@, now) == Some(e@),
            None => pool_refusal(pool@, authority@, payer@, now) is None,
        },
{
    if !same(pool.settlement_authority.as_str(), authority) {
        return Some("caller is not this pool's settlement authority".to_owned());
    }
    if !same(pool.payer_user_id.as_str(), payer) {
        return Some("payer does not match pool".to_owned());
    }
    if !same(pool.status.as_str(), "open") {
        return Some("pool is not open".to_owned());
    }
    if pool.expires_at <= 0 || now > pool.expires_at {
        return Some("pool expired".to_owned());
    }
    None
}

/// Why a quote does not cover a reservation.
pub open spec fn reservation_quote_refusal(
    quotes: Rows<Tree>,
    input: ReservePoolInput,
) -> Option<Seq<char>> {
    match lookup(quotes, input.quote_id@) {
        None => Some("run quote not found"@),
        Some(quote) => if quote.text("payerUserId"@) != Some(input.payer_user_id@) {
            Some("quote payer does not match reservation"@)
        } else if quote.text("requestId"@) != Some(input.run_id@) {
            Some("quote is not bound to this run"@)
        } else if quote.number("maxAmount"@) != Some(input.max_amount) {
            Some("reservation amount does not match the quote"@)
        } else {
            None
        },
    }
}

/// The reservation that a request makes.
pub open spec fn new_reservation(input: ReservePoolInput, now: i64) -> ReservationState {
    ReservationState {
        pool_id: input.pool_id@,
        payer_user_id: input.payer_user_id@,
        quote_id: input.quote_id@,
        amount: input.max_amount as int,
        status: "reserved"@,
        created_at: now as int,
        settlement_id: Seq::empty(),
        actual_amount: 0,
        usage_hash: Seq::empty(),
        settlement_lines: Seq::empty(),
        settled_at: 0,
        release_id: Seq::empty(),
        release_reason: Seq::empty(),
        released_at: 0,
    }
}

/// What reserving a slice of a pool does. A run that has a reservation of this pool gets
/// it again.
pub open spec fn slice_reserved(
    books: Books,
    authority: Seq<char>,
    input: ReservePoolInput,
    now: i64,
    journal_id: Seq<char>,
) -> Result<(Books, ReservationAnswer), Seq<char>> {
    let amount = input.max_amount as int;
    if !is_finance_id(input.pool_id@) || !is_finance_id(input.payer_user_id@) || !is_finance_id(
        input.quote_id@,
    ) || !is_finance_id(input.run_id@) {
        Err("invalid pool, payer, quote, or run identifier"@)
    } else if amount <= 0 {
        Err("reservation amount must be greater than zero"@)
    } else if lookup(books.reservations, input.run_id@) is Some {
        let existing = lookup(books.reservations, input.run_id@)->0;
        if existing.pool_id == input.pool_id@ {
            Ok((books, ReservationAnswer::Unchanged { reservation: existing }))
        } else {
            Err("run already reserved against another pool"@)
        }
    } else {
        match lookup(books.pools, input.pool_id@) {
            None => Err("pool not found"@),
            Some(pool) => if pool_refusal(pool, authority, input.payer_user_id@, now) is Some {
                Err(pool_refusal(pool, authority, input.payer_user_id@, now)->0)
            } else if reservation_quote_refusal(books.quotes, input) is Some {
                Err(reservation_quote_refusal(books.quotes, input)->0)
            } else if pool.remaining < amount {
                Err("pool has insufficient remaining balance for this run"@)
            } else if !fits(pool.reserved + amount) {
                Err("pool reserved overflow"@)
            } else {
                let drawn = PoolState {
                    remaining: pool.remaining - amount,
                    reserved: pool.reserved + amount,
                    updated_at: now as int,
                    ..pool
                };
                let reservation = new_reservation(input, now);
                let written = Books {
                    pools: stored(books.pools, input.pool_id@, drawn),
                    reservations: stored(books.reservations, input.run_id@, reservation),
                    ..books
                };
                let entry = Entry {
                    kind: "pool.reserved"@,
                    hold_id: input.pool_id@,
                    payer_user_id: input.payer_user_id@,
                    created_at: now as int,
                    payload: figures(about_run(input.run_id@), seq![("amount"@, amount)]),
                };
                Ok(
                    (
                        journaled(written, journal_id, entry, seq![input.payer_user_id@, authority]),
                        ReservationAnswer::Changed { reservation, journal_id },
                    ),
                )
            },
        }
    }
}

fn refuse_reservation_quote(quotes: &Table<Json>, input: &ReservePoolInput) -> (r: Option<String>)
    ensures
        match r {
            Some(e) => reservation_quote_refusal(quotes@, *input) == Some(e@),
            None => reservation_quote_refusal(quotes@, *input) is None,
        },
{
    let quote = match quotes.get(input.quote_id.as_str()) {
        Some(quote) => quote,
        None => {
            return Some("run quote not found".to_owned());
        },
    };
    if !quote.has_text("payerUserId", input.payer_user_id.as_str()) {
        return Some("quote payer does not match reservation".to_owned());
    }
    if !quote.has_text("requestId", input.run_id.as_str()) {
        return Some("quote is not bound to this run".to_owned());
    }
    match quote.number("maxAmount") {
        Some(n) => if n == input.max_amount {
            None
        } else {
            Some("reservation amount does not match the quote".to_owned())
        },
        None => Some("reservation amount does not match the quote".to_owned()),
    }
}

/// Reserve a slice of a pool for a quoted run.
pub fn reserve_pool(
    ledger: &mut Ledger,
    authority: &str,
    input: &ReservePoolInput,
    now: i64,
    journal_id: &str,
) -> (r: Result<ReservationReply, String>)
    ensures
        match r {
            Ok(reply) => slice_reserved(old(ledger)@, authority@, *input, now, journal_id@) == Ok::<
                (Books, ReservationAnswer),
                Seq<char>,
            >((final(ledger)@, reply@)),
            Err(e) => final(ledger)@ == old(ledger)@ && slice_reserved(
                old(ledger)@,
                authority@,
                *input,
                now,
                journal_id@,
            ) == Err::<(Books, ReservationAnswer), Seq<char>>(e@),
        },
{
    let pool_id = input.pool_id.as_str();
    let payer = input.payer_user_id.as_str();
    if !valid_finance_id(pool_id) || !valid_finance_id(payer) || !valid_finance_id(
        input.quote_id.as_str(),
    ) || !valid_finance_id(input.run_id.as_str()) {
        return Err("invalid pool, payer, quote, or run identifier".to_owned());
    }
    if input.max_amount <= 0 {
        return Err("reservation amount must be greater than zero".to_owned());
    }
    match ledger.reservations.get(input.run_id.as_str()) {
        Some(existing) => {
            if same(existing.pool_id.as_str(), pool_id) {
                return Ok(ReservationReply::Unchanged { reservation: existing.copy() });
            }
            return Err("run already reserved against another pool".to_owned());
        },
        None => {},
    }
    let mut pool = match ledger.pools.get(pool_id) {
        Some(pool) => pool.copy(),
        None => {
            return Err("pool not found".to_owned());
        },
    };
    match refuse_pool(&pool, authority, payer, now) {
        Some(e) => {
            return Err(e);
        },
        None => {},
    }
    match refuse_reservation_quote(&ledger.quotes, input) {
        Some(e) => {
            return Err(e);
        },
        None => {},
    }
    if pool.remaining < input.max_amount {
        return Err("pool has insufficient remaining balance for this run".to_owned());
    }
    let reserved: i64 = match pool.reserved.checked_add(input.max_amount) {
        Some(v) => v,
        None => {
            return Err("pool reserved overflow".to_owned());
        },
    };
    pool.remaining = pool.remaining - input.max_amount;
    pool.reserved = reserved;
    pool.updated_at = now;
    let none: Vec<SettlementLine> = Vec::new();
    let empty = String::new();
    proof {
        assert(lines_of(none@) =~= Seq::empty());
        assert(empty@ =~= Seq::<char>::empty());
    }
    let reservation = Reservation {
        pool_id: pool_id.to_owned(),
        payer_user_id: payer.to_owned(),
        quote_id: input.quote_id.clone(),
        amount: input.max_amount,
        status: "reserved".to_owned(),
        created_at: now,
        settlement_id: empty.clone(),
        actual_amount: 0,
        usage_hash: empty.clone(),
        settlement_lines: none,
        settled_at: 0,
        release_id: empty.clone(),
        release_reason: empty,
        released_at: 0,
    };
    assert(reservation@ =~= new_reservation(*input, now));
    let reply = ReservationReply::Changed {
        reservation: reservation.copy(),
        journal_id: journal_id.to_owned(),
    };
    ledger.pools.put(pool_id, pool);
    ledger.reservations.put(input.run_id.as_str(), reservation);
    let mut amounts = no_amounts();
    add_amount(&mut amounts, "amount", input.max_amount);
    assert(amounts_of(amounts@) =~= seq![("amount"@, input.max_amount as int)]);
    let entry = JournalEntry {
        kind: "pool.reserved".to_owned(),
        hold_id: pool_id.to_owned(),
        payer_user_id: payer.to_owned(),
        created_at: now,
        payload: write_figures(write_about_run(input.run_id.as_str()), &amounts),
    };
    let participants = pair(payer, authority);
    ledger.write_finance_journal(journal_id, entry, &participants);
    Ok(reply)
}

// ---------------------------------------------------------------- settle

/// A request to pay out what a run used of its slice.
pub struct SettlePoolInput {
    pub pool_id: String,
    pub payer_user_id: String,
    pub quote_id: String,
    pub run_id: String,
    pub settlement_id: String,
    pub usage_hash: String,
    pub lines: Vec<SettlementLine>,
}

/// What settling a slice answers: what was paid, what went back to the pool, and the
/// journal entry; or the pool as an earlier request left it.
pub enum SliceReply {
    Settled { actual_amount: i64, refunded_to_pool: i64, journal_id: String },
    Unchanged { pool: Pool },
}

/// The answer to settling a slice, as texts and numbers.
pub enum SliceAnswer {
    Settled { actual_amount: int, refunded_to_pool: int, journal_id: Seq<char> },
    Unchanged { pool: PoolState },
}

impl View for SliceReply {
    type V = SliceAnswer;

    open spec fn view(&self) -> SliceAnswer {
        match self {
            SliceReply::Settled { actual_amount, refunded_to_pool, journal_id } => {
                SliceAnswer::Settled {
                    actual_amount: *actual_amount as int,
                    refunded_to_pool: *refunded_to_pool as int,
                    journal_id: journal_id@,
                }
            },
            SliceReply::Unchanged { pool } => SliceAnswer::Unchanged { pool: pool@ },
        }
    }
}

/// Why a reservation cannot be settled by this request.
pub open spec fn slice_refusal(
    reservation: ReservationState,
    input: SettlePoolInput,
) -> Option<Seq<char>> {
    if reservation.status != "reserved"@ {
        Some("run reservation is not open for settlement"@)
    } else if reservation.pool_id != input.pool_id@ || reservation.payer_user_id
        != input.payer_user_id@ || reservation.quote_id != input.quote_id@ {
        Some("settlement does not match the run reservation"@)
    } else if reservation.amount <= 0 {
        Some("invalid reservation amount"@)
    } else {
        None
    }
}

/// The plan that a run's quote authorizes, or why there is none.
pub open spec fn authorized_plan(
    quotes: Rows<Tree>,
    quote_id: Seq<char>,
    payer: Seq<char>,
    mismatch: Seq<char>,
    capped: bool,
) -> Result<Rows<i64>, Seq<char>> {
    match lookup(quotes, quote_id) {
        None => Err("run quote not found"@),
        Some(quote) => if quote.text("payerUserId"@) != Some(payer) {
            Err(mismatch)
        } else {
            match quote.items("beneficiaries"@) {
                None => Err("quote beneficiaries missing"@),
                Some(rows) => if !is_plan(quote_plan(rows), capped) {
                    Err("invalid quote beneficiary"@)
                } else {
                    Ok(caps_of(quote_plan(rows)))
                },
            }
        },
    }
}

fn read_authorized_plan(
    quotes: &Table<Json>,
    quote_id: &str,
    payer: &str,
    mismatch: &str,
    capped: bool,
) -> (r: Result<Table<i64>, String>)
    ensures
        match r {
            Ok(caps) => authorized_plan(quotes@, quote_id@, payer@, mismatch@, capped) == Ok::<
                Rows<i64>,
                Seq<char>,
            >(caps@),
            Err(e) => authorized_plan(quotes@, quote_id@, payer@, mismatch@, capped) == Err::<
                Rows<i64>,
                Seq<char>,
            >(e@),
        },
{
    let quote = match quotes.get(quote_id) {
        Some(quote) => quote,
        None => {
            return Err("run quote not found".to_owned());
        },
    };
    if !quote.has_text("payerUserId", payer) {
        return Err(mismatch.to_owned());
    }
    match quote.items("beneficiaries") {
        None => Err("quote beneficiaries missing".to_owned()),
        Some(rows) => {
            let plan = read_quote_plan(rows);
            match plan_caps(&plan, capped) {
                Some(caps) => Ok(caps),
                None => Err("invalid quote beneficiary".to_owned()),
            }
        },
    }
}

/// A payer's wallet after `amount` of its held funds was paid out.
pub open spec fn drained(w: Wallet, amount: int) -> Result<Wallet, Seq<char>> {
    if w.held < 0 {
        Err("invalid held balance"@)
    } else if w.held - amount < 0 {
        Err("held balance underflow"@)
    } else {
        charged(Wallet { held: (w.held - amount) as i64, ..w }, amount)
    }
}

fn drain_wallet(w: Wallet, amount: i64) -> (r: Result<Wallet, String>)
    requires
        amount >= 0,
    ensures
        match r {
            Ok(next) => drained(w, amount as int) == Ok::<Wallet, Seq<char>>(next),
            Err(e) => drained(w, amount as int) == Err::<Wallet, Seq<char>>(e@),
        },
{
    if w.held < 0 {
        return Err("invalid held balance".to_owned());
    }
    let held: i64 = w.held - amount;
    if held < 0 {
        return Err("held balance underflow".to_owned());
    }
    charge_wallet(Wallet { held, ..w }, amount)
}

/// The wallets after a payment out of a pool: each user has earned their amount, and the
/// sum has left the payer's held funds.
pub open spec fn paid_from_pool(
    wallets: Rows<Wallet>,
    payer: Seq<char>,
    users: Rows<i64>,
    sum: int,
    missing: Seq<char>,
) -> Result<Rows<Wallet>, Seq<char>> {
    match all_credited(wallets, users, missing) {
        Err(e) => Err(e),
        Ok(paid) => if sum > 0 {
            match drained(wallet_of(paid, payer), sum) {
                Err(e) => Err(e),
                Ok(w) => Ok(stored(paid, payer, w)),
            }
        } else {
            Ok(paid)
        },
    }
}

fn pay_from_pool(
    wallets: &Table<Wallet>,
    payer: &str,
    users: &Table<i64>,
    sum: i64,
    missing: &str,
) -> (r: Result<Table<Wallet>, String>)
    requires
        sum >= 0,
        forall|i: int| 0 <= i < users@.len() ==> (#[trigger] users@[i]).1 >= 0,
    ensures
        match r {
            Ok(next) => paid_from_pool(wallets@, payer@, users@, sum as int, missing@) == Ok::<
                Rows<Wallet>,
                Seq<char>,
            >(next@),
            Err(e) => paid_from_pool(wallets@, payer@, users@, sum as int, missing@) == Err::<
                Rows<Wallet>,
                Seq<char>,
            >(e@),
        },
{
    let mut next = wallets.copy();
    match credit_users(&mut next, users, missing) {
        Err(e) => {
            return Err(e);
        },
        Ok(_) => {},
    }
    if sum > 0 {
        match drain_wallet(wallet_in(&next, payer), sum) {
            Err(e) => {
                return Err(e);
            },
            Ok(w) => {
                next.put(payer, w);
            },
        }
    }
    Ok(next)
}

/// The pool after a run's slice was settled with `actual` of it spent, or why its amounts
/// do not fit.
pub open spec fn slice_returned(pool: PoolState, slice: int, actual: int, now: i64) -> Result<
    PoolState,
    Seq<char>,
> {
    if !fits(pool.remaining + (slice - actual)) {
        Err("pool remaining overflow"@)
    } else if !fits(pool.reserved - slice) {
        Err("pool reserved underflow"@)
    } else if !fits(pool.spent + actual) {
        Err("pool spent overflow"@)
    } else {
        Ok(
            PoolState {
                remaining: pool.remaining + (slice - actual),
                reserved: pool.reserved - slice,
                spent: pool.spent + actual,
                updated_at: now as int,
                ..pool
            },
        )
    }
}

/// What settling a slice does.
pub open spec fn slice_settled(
    books: Books,
    authority: Seq<char>,
    input: SettlePoolInput,
    now: i64,
    journal_id: Seq<char>,
) -> Result<(Books, SliceAnswer), Seq<char>> {
    let payer = input.payer_user_id@;
    let marker = "FinancePoolSettlement::"@ + authority + "::"@ + input.settlement_id@;
    if !is_finance_id(input.pool_id@) || !is_finance_id(payer) || !is_finance_id(input.quote_id@)
        || !is_finance_id(input.run_id@) || !is_finance_id(input.settlement_id@)
        || !is_finance_hash(input.usage_hash@) {
        Err("invalid settlement identifiers or usageHash"@)
    } else if link_of(books.links, marker).len() > 0 {
        match lookup(books.pools, input.pool_id@) {
            None => Err("pool not found"@),
            Some(pool) => Ok((books, SliceAnswer::Unchanged { pool })),
        }
    } else if lookup(books.reservations, input.run_id@) is None {
        Err("run reservation not found"@)
    } else {
        let reservation = lookup(books.reservations, input.run_id@)->0;
        let slice = reservation.amount;
        if slice_refusal(reservation, input) is Some {
            Err(slice_refusal(reservation, input)->0)
        } else if lookup(books.pools, input.pool_id@) is None {
            Err("pool not found"@)
        } else {
            let pool = lookup(books.pools, input.pool_id@)->0;
            if pool.settlement_authority != authority {
                Err("caller is not this pool's settlement authority"@)
            } else if pool.status != "open"@ {
                Err("pool is not open"@)
            } else {
                match authorized_plan(
                    books.quotes,
                    input.quote_id@,
                    payer,
                    "quote payer does not match settlement"@,
                    true,
                ) {
                    Err(e) => Err(e),
                    Ok(caps) => match tally_of(
                        lines_of(input.lines@),
                        caps,
                        payer,
                        Rules::Reservation,
                    ) {
                        Err(e) => Err(e),
                        Ok(tally) => if tally.sum > slice {
                            Err("settlement exceeds the run reservation"@)
                        } else {
                            slice_paid(
                                books,
                                authority,
                                input,
                                now,
                                journal_id,
                                reservation,
                                pool,
                                tally,
                            )
                        },
                    },
                }
            }
        }
    }
}

/// Paying out a tallied slice.
pub open spec fn slice_paid(
    books: Books,
    authority: Seq<char>,
    input: SettlePoolInput,
    now: i64,
    journal_id: Seq<char>,
    reservation: ReservationState,
    pool: PoolState,
    tally: Tally,
) -> Result<(Books, SliceAnswer), Seq<char>> {
    let payer = input.payer_user_id@;
    let marker = "FinancePoolSettlement::"@ + authority + "::"@ + input.settlement_id@;
    let refund = reservation.amount - tally.sum;
    match paid_from_pool(
        books.wallets,
        payer,
        tally.users,
        tally.sum,
        Rules::Reservation.missing(),
    ) {
        Err(e) => Err(e),
        Ok(wallets) => match slice_returned(pool, reservation.amount, tally.sum, now) {
            Err(e) => Err(e),
            Ok(returned) => {
                let settled = ReservationState {
                    status: "settled"@,
                    settlement_id: input.settlement_id@,
                    actual_amount: tally.sum,
                    usage_hash: input.usage_hash@,
                    settlement_lines: lines_of(input.lines@),
                    settled_at: now as int,
                    ..reservation
                };
                let written = Books {
                    wallets,
                    pools: stored(books.pools, input.pool_id@, returned),
                    reservations: stored(books.reservations, input.run_id@, settled),
                    links: stored(books.links, marker, input.run_id@),
                    ..books
                };
                let entry = Entry {
                    kind: "pool.settled"@,
                    hold_id: input.pool_id@,
                    payer_user_id: payer,
                    created_at: now as int,
                    payload: figures(about_run(input.run_id@), seq![("actual"@, tally.sum), ("refundedToPool"@, refund)]),
                };
                Ok(
                    (
                        journaled(
                            written,
                            journal_id,
                            entry,
                            seq![payer, authority] + keys_of(tally.users),
                        ),
                        SliceAnswer::Settled {
                            actual_amount: tally.sum,
                            refunded_to_pool: refund,
                            journal_id,
                        },
                    ),
                )
            },
        },
    }
}

fn refuse_slice(reservation: &Reservation, input: &SettlePoolInput) -> (r: Option<String>)
    ensures
        match r {
            Some(e) => slice_refusal(reservation@, *input) == Some(e@),
            None => slice_refusal(reservation@, *input) is None,
        },
{
    if !same(reservation.status.as_str(), "reserved") {
        return Some("run reservation is not open for settlement".to_owned());
    }
    if !same(reservation.pool_id.as_str(), input.pool_id.as_str()) || !same(
        reservation.payer_user_id.as_str(),
        input.payer_user_id.as_str(),
    ) || !same(reservation.quote_id.as_str(), input.quote_id.as_str()) {
        return Some("settlement does not match the run reservation".to_owned());
    }
    if reservation.amount <= 0 {
        return Some("invalid reservation amount".to_owned());
    }
    None
}

fn return_slice(pool: &Pool, slice: i64, actual: i64, now: i64) -> (r: Result<Pool, String>)
    requires
        0 <= actual <= slice,
    ensures
        match r {
            Ok(next) => slice_returned(pool@, slice as int, actual as int, now) == Ok::<
                PoolState,
                Seq<char>,
            >(next@),
            Err(e) => slice_returned(pool@, slice as int, actual as int, now) == Err::<
                PoolState,
                Seq<char>,
            >(e@),
        },
{
    let mut next = pool.copy();
    next.remaining = match pool.remaining.checked_add(slice - actual) {
        Some(v) => v,
        None => {
            return Err("pool remaining overflow".to_owned());
        },
    };
    next.reserved = match pool.reserved.checked_sub(slice) {
        Some(v) => v,
        None => {
            return Err("pool reserved underflow".to_owned());
        },
    };
    next.spent = match pool.spent.checked_add(actual) {
        Some(v) => v,
        None => {
            return Err("pool spent overflow".to_owned());
        },
    };
    next.updated_at = now;
    Ok(next)
}

/// Pay out what a run used of its slice, and return the rest to the pool.
pub fn settle_pool(
    ledger: &mut Ledger,
    authority: &str,
    input: &SettlePoolInput,
    now: i64,
    journal_id: &str,
) -> (r: Result<SliceReply, String>)
    ensures
        match r {
            Ok(reply) => slice_settled(old(ledger)@, authority@, *input, now, journal_id@) == Ok::<
                (Books, SliceAnswer),
                Seq<char>,
            >((final(ledger)@, reply@)),
            Err(e) => final(ledger)@ == old(ledger)@ && slice_settled(
                old(ledger)@,
                authority@,
                *input,
                now,
                journal_id@,
            ) == Err::<(Books, SliceAnswer), Seq<char>>(e@),
        },
{
    let pool_id = input.pool_id.as_str();
    let payer = input.payer_user_id.as_str();
    let run_id = input.run_id.as_str();
    if !valid_finance_id(pool_id) || !valid_finance_id(payer) || !valid_finance_id(
        input.quote_id.as_str(),
    ) || !valid_finance_id(run_id) || !valid_finance_id(input.settlement_id.as_str())
        || !valid_finance_hash(input.usage_hash.as_str()) {
        return Err("invalid settlement identifiers or usageHash".to_owned());
    }
    let marker = join4("FinancePoolSettlement::", authority, "::", input.settlement_id.as_str());
    if !ledger.link(marker.as_str()).as_str().is_empty() {
        return match ledger.pools.get(pool_id) {
            Some(pool) => Ok(SliceReply::Unchanged { pool: pool.copy() }),
            None => Err("pool not found".to_owned()),
        };
    }
    let mut reservation = match ledger.reservations.get(run_id) {
        Some(reservation) => reservation.copy(),
        None => {
            return Err("run reservation not found".to_owned());
        },
    };
    match refuse_slice(&reservation, input) {
        Some(e) => {
            return Err(e);
        },
        None => {},
    }
    let slice: i64 = reservation.amount;
    let pool = match ledger.pools.get(pool_id) {
        Some(pool) => pool.copy(),
        None => {
            return Err("pool not found".to_owned());
        },
    };
    if !same(pool.settlement_authority.as_str(), authority) {
        return Err("caller is not this pool's settlement authority".to_owned());
    }
    if !same(pool.status.as_str(), "open") {
        return Err("pool is not open".to_owned());
    }
    let caps = match read_authorized_plan(
        &ledger.quotes,
        input.quote_id.as_str(),
        payer,
        "quote payer does not match settlement",
        true,
    ) {
        Ok(caps) => caps,
        Err(e) => {
            return Err(e);
        },
    };
    let tally = match tally_lines(&input.lines, &caps, payer, Rules::Reservation) {
        Ok(tally) => tally,
        Err(e) => {
            return Err(e);
        },
    };
    proof {
        law_a_tally_adds_up(lines_of(input.lines@), caps@, payer@, Rules::Reservation);
        lemma_rows_positive(tally.users@, tally.sum as int);
    }
    if tally.sum > slice {
        return Err("settlement exceeds the run reservation".to_owned());
    }
    let wallets = match pay_from_pool(
        &ledger.wallets,
        payer,
        &tally.users,
        tally.sum,
        "settlement beneficiary not found",
    ) {
        Ok(wallets) => wallets,
        Err(e) => {
            return Err(e);
        },
    };
    let returned = match return_slice(&pool, slice, tally.sum, now) {
        Ok(returned) => returned,
        Err(e) => {
            return Err(e);
        },
    };
    reservation.status = "settled".to_owned();
    reservation.settlement_id = input.settlement_id.clone();
    reservation.actual_amount = tally.sum;
    reservation.usage_hash = input.usage_hash.clone();
    reservation.settlement_lines = copy_lines(&input.lines);
    reservation.settled_at = now;
    ledger.wallets = wallets;
    ledger.pools.put(pool_id, returned);
    ledger.reservations.put(run_id, reservation);
    ledger.links.put(marker.as_str(), run_id.to_owned());
    let refund: i64 = slice - tally.sum;
    let mut amounts = no_amounts();
    add_amount(&mut amounts, "actual", tally.sum);
    add_amount(&mut amounts, "refundedToPool", refund);
    assert(amounts_of(amounts@) =~= seq![
        ("actual"@, tally.sum as int),
        ("refundedToPool"@, refund as int),
    ]);
    let entry = JournalEntry {
        kind: "pool.settled".to_owned(),
        hold_id: pool_id.to_owned(),
        payer_user_id: payer.to_owned(),
        created_at: now,
        payload: write_figures(write_about_run(input.run_id.as_str()), &amounts),
    };
    let mut participants = pair(payer, authority);
    add_participants(&mut participants, &tally.users);
    ledger.write_finance_journal(journal_id, entry, &participants);
    Ok(
        SliceReply::Settled {
            actual_amount: tally.sum,
            refunded_to_pool: refund,
            journal_id: journal_id.to_owned(),
        },
    )
}

// ---------------------------------------------------------------- release

/// A request to return a run's slice to the pool.
pub struct ReleasePoolInput {
    pub pool_id: String,
    pub payer_user_id: String,
    pub run_id: String,
    pub release_id: String,
    pub reason: String,
}

/// What releasing a slice answers: the amount that went back to the pool and the journal
/// entry, or the reservation as an earlier request left it.
pub enum ReleaseReply {
    Released { amount: i64, journal_id: String },
    Unchanged { reservation: Reservation },
}

/// The answer to releasing a slice, as texts and numbers.
pub enum ReleaseAnswer {
    Released { amount: int, journal_id: Seq<char> },
    Unchanged { reservation: ReservationState },
}

impl View for ReleaseReply {
    type V = ReleaseAnswer;

    open spec fn view(&self) -> ReleaseAnswer {
        match self {
            ReleaseReply::Released { amount, journal_id } => ReleaseAnswer::Released {
                amount: *amount as int,
                journal_id: journal_id@,
            },
            ReleaseReply::Unchanged { reservation } => ReleaseAnswer::Unchanged {
                reservation: reservation@,
            },
        }
    }
}

/// Whether the caller may release a slice: the settlement authority always may, and the
/// payer may once the pool is past.
pub open spec fn may_release_slice(
    pool: PoolState,
    payer: Seq<char>,
    caller: Seq<char>,
    now: i64,
) -> bool {
    ||| caller == pool.settlement_authority
    ||| caller == payer && pool.expires_at > 0 && now > pool.expires_at
}

/// What releasing a slice does.
pub open spec fn slice_released(
    books: Books,
    caller: Seq<char>,
    input: ReleasePoolInput,
    now: i64,
    journal_id: Seq<char>,
) -> Result<(Books, ReleaseAnswer), Seq<char>> {
    let payer = input.payer_user_id@;
    if !is_finance_id(input.pool_id@) || !is_finance_id(payer) || !is_finance_id(input.run_id@)
        || !is_finance_id(input.release_id@) {
        Err("invalid pool, payer, run, or release identifier"@)
    } else if lookup(books.reservations, input.run_id@) is None {
        Err("run reservation not found"@)
    } else {
        let reservation = lookup(books.reservations, input.run_id@)->0;
        let slice = reservation.amount;
        if reservation.status == "released"@ && reservation.release_id == input.release_id@ {
            Ok((books, ReleaseAnswer::Unchanged { reservation }))
        } else if reservation.status != "reserved"@ {
            Err("run reservation is not open for release"@)
        } else if reservation.pool_id != input.pool_id@ || reservation.payer_user_id != payer {
            Err("release does not match the run reservation"@)
        } else if lookup(books.pools, input.pool_id@) is None {
            Err("pool not found"@)
        } else {
            let pool = lookup(books.pools, input.pool_id@)->0;
            if !may_release_slice(pool, payer, caller, now) {
                Err("caller may not release this reservation"@)
            } else if !fits(pool.remaining + slice) {
                Err("pool remaining overflow"@)
            } else if !fits(pool.reserved - slice) {
                Err("pool reserved underflow"@)
            } else {
                let returned = PoolState {
                    remaining: pool.remaining + slice,
                    reserved: pool.reserved - slice,
                    updated_at: now as int,
                    ..pool
                };
                let released = ReservationState {
                    status: "released"@,
                    release_id: input.release_id@,
                    release_reason: input.reason@,
                    released_at: now as int,
                    ..reservation
                };
                let written = Books {
                    pools: stored(books.pools, input.pool_id@, returned),
                    reservations: stored(books.reservations, input.run_id@, released),
                    ..books
                };
                let entry = Entry {
                    kind: "pool.released"@,
                    hold_id: input.pool_id@,
                    payer_user_id: payer,
                    created_at: now as int,
                    payload: figures(about_run(input.run_id@), seq![("amount"@, slice)]),
                };
                Ok(
                    (
                        journaled(
                            written,
                            journal_id,
                            entry,
                            seq![payer, pool.settlement_authority],
                        ),
                        ReleaseAnswer::Released { amount: slice, journal_id },
                    ),
                )
            }
        }
    }
}

/// Return a run's whole slice to the pool.
pub fn release_pool(
    ledger: &mut Ledger,
    caller: &str,
    input: &ReleasePoolInput,
    now: i64,
    journal_id: &str,
) -> (r: Result<ReleaseReply, String>)
    ensures
        match r {
            Ok(reply) => slice_released(old(ledger)@, caller@, *input, now, journal_id@) == Ok::<
                (Books, ReleaseAnswer),
                Seq<char>,
            >((final(ledger)@, reply@)),
            Err(e) => final(ledger)@ == old(ledger)@ && slice_released(
                old(ledger)@,
                caller@,
                *input,
                now,
                journal_id@,
            ) == Err::<(Books, ReleaseAnswer), Seq<char>>(e@),
        },
{
    let pool_id = input.pool_id.as_str();
    let payer = input.payer_user_id.as_str();
    let run_id = input.run_id.as_str();
    if !valid_finance_id(pool_id) || !valid_finance_id(payer) || !valid_finance_id(run_id)
        || !valid_finance_id(input.release_id.as_str()) {
        return Err("invalid pool, payer, run, or release identifier".to_owned());
    }
    let mut reservation = match ledger.reservations.get(run_id) {
        Some(reservation) => reservation.copy(),
        None => {
            return Err("run reservation not found".to_owned());
        },
    };
    if same(reservation.status.as_str(), "released") && same(
        reservation.release_id.as_str(),
        input.release_id.as_str(),
    ) {
        return Ok(ReleaseReply::Unchanged { reservation });
    }
    if !same(reservation.status.as_str(), "reserved") {
        return Err("run reservation is not open for release".to_owned());
    }
    if !same(reservation.pool_id.as_str(), pool_id) || !same(
        reservation.payer_user_id.as_str(),
        payer,
    ) {
        return Err("release does not match the run reservation".to_owned());
    }
    let slice: i64 = reservation.amount;
    let mut pool = match ledger.pools.get(pool_id) {
        Some(pool) => pool.copy(),
        None => {
            return Err("pool not found".to_owned());
        },
    };
    let recovery = same(caller, payer) && pool.expires_at > 0 && now > pool.expires_at;
    if !same(caller, pool.settlement_authority.as_str()) && !recovery {
        return Err("caller may not release this reservation".to_owned());
    }
    pool.remaining = match pool.remaining.checked_add(slice) {
        Some(v) => v,
        None => {
            return Err("pool remaining overflow".to_owned());
        },
    };
    pool.reserved = match pool.reserved.checked_sub(slice) {
        Some(v) => v,
        None => {
            return Err("pool reserved underflow".to_owned());
        },
    };
    pool.updated_at = now;
    reservation.status = "released".to_owned();
    reservation.release_id = input.release_id.clone();
    reservation.release_reason = input.reason.clone();
    reservation.released_at = now;
    let participants = pair(payer, pool.settlement_authority.as_str());
    ledger.pools.put(pool_id, pool);
    ledger.reservations.put(run_id, reservation);
    let mut amounts = no_amounts();
    add_amount(&mut amounts, "amount", slice);
    assert(amounts_of(amounts@) =~= seq![("amount"@, slice as int)]);
    let entry = JournalEntry {
        kind: "pool.released".to_owned(),
        hold_id: pool_id.to_owned(),
        payer_user_id: payer.to_owned(),
        created_at: now,
        payload: write_figures(write_about_run(input.run_id.as_str()), &amounts),
    };
    ledger.write_finance_journal(journal_id, entry, &participants);
    Ok(ReleaseReply::Released { amount: slice, journal_id: journal_id.to_owned() })
}

// ---------------------------------------------------------------- debit

/// A request to charge a running run straight out of its pool.
pub struct DebitPoolInput {
    pub pool_id: String,
    pub payer_user_id: String,
    pub quote_id: String,
    pub run_id: String,
    pub debit_id: String,
    pub usage_hash: String,
    pub lines: Vec<SettlementLine>,
}

/// What a live debit answers: what it charged, what remains, and the journal entry; that
/// the pool cannot cover it, so that nothing was charged; or what remains where the debit
/// was applied before.
pub enum DebitReply {
    Charged { charged: i64, remaining: i64, journal_id: String },
    Exhausted { remaining: i64 },
    Unchanged { remaining: i64 },
}

/// The answer to a live debit, as texts and numbers.
pub enum DebitAnswer {
    Charged { charged: int, remaining: int, journal_id: Seq<char> },
    Exhausted { remaining: int },
    Unchanged { remaining: int },
}

impl View for DebitReply {
    type V = DebitAnswer;

    open spec fn view(&self) -> DebitAnswer {
        match self {
            DebitReply::Charged { charged, remaining, journal_id } => DebitAnswer::Charged {
                charged: *charged as int,
                remaining: *remaining as int,
                journal_id: journal_id@,
            },
            DebitReply::Exhausted { remaining } => DebitAnswer::Exhausted {
                remaining: *remaining as int,
            },
            DebitReply::Unchanged { remaining } => DebitAnswer::Unchanged {
                remaining: *remaining as int,
            },
        }
    }
}

/// What a run's record of live debits credits after `roles` more, or the refusal where an
/// amount does not fit.
pub open spec fn more_credits(credits: Rows<i64>, roles: Rows<i64>) -> Result<Rows<i64>, Seq<char>>
    decreases roles.len(),
{
    if roles.len() == 0 {
        Ok(credits)
    } else {
        match more_credits(credits, roles.drop_last()) {
            Err(e) => Err(e),
            Ok(before) => {
                let (key, amount) = roles.last();
                if amount_in(before, key) + amount > i64::MAX {
                    Err("run credit overflow"@)
                } else {
                    Ok(stored(before, key, (amount_in(before, key) + amount) as i64))
                }
            },
        }
    }
}

/// The record of live debits of a run that has none yet.
pub open spec fn first_debit(input: DebitPoolInput, now: i64) -> LiveDebitState {
    LiveDebitState {
        pool_id: input.pool_id@,
        payer_user_id: input.payer_user_id@,
        quote_id: input.quote_id@,
        created_at: now as int,
        charged_total: 0,
        credits: Seq::empty(),
        last_debit_id: Seq::empty(),
        last_usage_hash: Seq::empty(),
        updated_at: 0,
    }
}

/// The run's record of live debits with one more tallied debit.
pub open spec fn debit_recorded(
    record: LiveDebitState,
    input: DebitPoolInput,
    tally: Tally,
    now: i64,
) -> Result<LiveDebitState, Seq<char>> {
    if !fits(record.charged_total + tally.sum) {
        Err("run charged total overflow"@)
    } else {
        match more_credits(record.credits, tally.roles) {
            Err(e) => Err(e),
            Ok(credits) => Ok(
                LiveDebitState {
                    charged_total: record.charged_total + tally.sum,
                    credits,
                    last_debit_id: input.debit_id@,
                    last_usage_hash: input.usage_hash@,
                    updated_at: now as int,
                    ..record
                },
            ),
        }
    }
}

/// What a live debit does. Where the pool cannot cover it, nothing is charged.
pub open spec fn pool_debited(
    books: Books,
    authority: Seq<char>,
    input: DebitPoolInput,
    now: i64,
    journal_id: Seq<char>,
) -> Result<(Books, DebitAnswer), Seq<char>> {
    let payer = input.payer_user_id@;
    let marker = "FinancePoolDebit::"@ + authority + "::"@ + input.debit_id@;
    if !is_finance_id(input.pool_id@) || !is_finance_id(payer) || !is_finance_id(input.quote_id@)
        || !is_finance_id(input.run_id@) || !is_finance_id(input.debit_id@) || !is_finance_hash(
        input.usage_hash@,
    ) {
        Err("invalid debit identifiers or usageHash"@)
    } else if lookup(books.pools, input.pool_id@) is None {
        Err("pool not found"@)
    } else {
        let pool = lookup(books.pools, input.pool_id@)->0;
        if link_of(books.links, marker).len() > 0 {
            Ok((books, DebitAnswer::Unchanged { remaining: pool.remaining }))
        } else if pool_refusal(pool, authority, payer, now) is Some {
            Err(pool_refusal(pool, authority, payer, now)->0)
        } else {
            match authorized_plan(
                books.quotes,
                input.quote_id@,
                payer,
                "quote payer does not match debit"@,
                false,
            ) {
                Err(e) => Err(e),
                Ok(caps) => match tally_of(lines_of(input.lines@), caps, payer, Rules::Debit) {
                    Err(e) => Err(e),
                    Ok(tally) => if tally.sum <= 0 {
                        Err("debit must charge a positive amount"@)
                    } else if pool.remaining < tally.sum {
                        Ok((books, DebitAnswer::Exhausted { remaining: pool.remaining }))
                    } else {
                        debit_paid(books, authority, input, now, journal_id, pool, tally)
                    },
                },
            }
        }
    }
}

/// Paying a tallied debit that the pool covers.
pub open spec fn debit_paid(
    books: Books,
    authority: Seq<char>,
    input: DebitPoolInput,
    now: i64,
    journal_id: Seq<char>,
    pool: PoolState,
    tally: Tally,
) -> Result<(Books, DebitAnswer), Seq<char>> {
    let payer = input.payer_user_id@;
    let marker = "FinancePoolDebit::"@ + authority + "::"@ + input.debit_id@;
    let record = match lookup(books.live_debits, input.run_id@) {
        Some(record) => record,
        None => first_debit(input, now),
    };
    match paid_from_pool(books.wallets, payer, tally.users, tally.sum, Rules::Debit.missing()) {
        Err(e) => Err(e),
        Ok(wallets) => if !fits(pool.spent + tally.sum) {
            Err("pool spent overflow"@)
        } else {
            match debit_recorded(record, input, tally, now) {
                Err(e) => Err(e),
                Ok(recorded) => {
                    let drawn = PoolState {
                        remaining: pool.remaining - tally.sum,
                        spent: pool.spent + tally.sum,
                        updated_at: now as int,
                        ..pool
                    };
                    let written = Books {
                        wallets,
                        pools: stored(books.pools, input.pool_id@, drawn),
                        live_debits: stored(books.live_debits, input.run_id@, recorded),
                        links: stored(books.links, marker, input.run_id@),
                        ..books
                    };
                    let entry = Entry {
                        kind: "pool.debited"@,
                        hold_id: input.pool_id@,
                        payer_user_id: payer,
                        created_at: now as int,
                        payload: figures(about_run(input.run_id@), seq![("amount"@, tally.sum), ("remaining"@, drawn.remaining)]),
                    };
                    Ok(
                        (
                            journaled(
                                written,
                                journal_id,
                                entry,
                                seq![payer, authority] + keys_of(tally.users),
                            ),
                            DebitAnswer::Charged {
                                charged: tally.sum,
                                remaining: drawn.remaining,
                                journal_id,
                            },
                        ),
                    )
                },
            }
        },
    }
}

fn add_credits(credits: &Table<i64>, roles: &Table<i64>) -> (r: Result<Table<i64>, String>)
    requires
        forall|i: int| 0 <= i < roles@.len() ==> (#[trigger] roles@[i]).1 >= 0,
    ensures
        match r {
            Ok(next) => more_credits(credits@, roles@) == Ok::<Rows<i64>, Seq<char>>(next@),
            Err(e) => more_credits(credits@, roles@) == Err::<Rows<i64>, Seq<char>>(e@),
        },
{
    let mut next = credits.copy();
    let mut i: usize = 0;
    assert(roles@.subrange(0, 0) =~= Seq::empty());
    while i < roles.len()
        invariant
            i <= roles@.len(),
            forall|j: int| 0 <= j < roles@.len() ==> (#[trigger] roles@[j]).1 >= 0,
            more_credits(credits@, roles@.subrange(0, i as int)) == Ok::<Rows<i64>, Seq<char>>(
                next@,
            ),
        decreases roles@.len() - i,
    {
        proof {
            let upto = roles@.subrange(0, i + 1);
            assert(upto.drop_last() =~= roles@.subrange(0, i as int));
            assert(upto.last() == roles@[i as int]);
            lemma_credits_refused_later(credits@, roles@, i + 1);
        }
        let key = roles.key_at(i);
        let amount: i64 = *roles.record_at(i);
        let prior: i64 = match next.get(key) {
            Some(n) => *n,
            None => 0,
        };
        match prior.checked_add(amount) {
            Some(v) => {
                next.put(key, v);
            },
            None => {
                return Err("run credit overflow".to_owned());
            },
        }
        i = i + 1;
    }
    assert(roles@.subrange(0, roles@.len() as int) =~= roles@);
    Ok(next)
}

proof fn lemma_credits_refused_later(credits: Rows<i64>, roles: Rows<i64>, n: int)
    requires
        0 <= n <= roles.len(),
    ensures
        more_credits(credits, roles.subrange(0, n)) matches Err(e) ==> more_credits(credits, roles)
            == Err::<Rows<i64>, Seq<char>>(e),
    decreases roles.len() - n,
{
    if n == roles.len() {
        assert(roles.subrange(0, n) =~= roles);
    } else {
        assert(roles.subrange(0, n + 1).drop_last() =~= roles.subrange(0, n));
        lemma_credits_refused_later(credits, roles, n + 1);
    }
}

fn debit_record(ledger: &Ledger, input: &DebitPoolInput, now: i64) -> (r: LiveDebit)
    ensures
        r@ == match lookup(ledger@.live_debits, input.run_id@) {
            Some(record) => record,
            None => first_debit(*input, now),
        },
{
    match ledger.live_debits.get(input.run_id.as_str()) {
        Some(record) => record.copy(),
        None => {
            let empty = String::new();
            let credits: Table<i64> = Table::new();
            proof {
                assert(empty@ =~= Seq::<char>::empty());
                assert(credits@ =~= Seq::empty());
            }
            LiveDebit {
                pool_id: input.pool_id.clone(),
                payer_user_id: input.payer_user_id.clone(),
                quote_id: input.quote_id.clone(),
                created_at: now,
                charged_total: 0,
                credits,
                last_debit_id: empty.clone(),
                last_usage_hash: empty,
                updated_at: 0,
            }
        },
    }
}

/// Charge a running run straight out of its pool.
pub fn debit_pool(
    ledger: &mut Ledger,
    authority: &str,
    input: &DebitPoolInput,
    now: i64,
    journal_id: &str,
) -> (r: Result<DebitReply, String>)
    ensures
        match r {
            Ok(reply) => pool_debited(old(ledger)@, authority@, *input, now, journal_id@) == Ok::<
                (Books, DebitAnswer),
                Seq<char>,
            >((final(ledger)@, reply@)),
            Err(e) => final(ledger)@ == old(ledger)@ && pool_debited(
                old(ledger)@,
                authority@,
                *input,
                now,
                journal_id@,
            ) == Err::<(Books, DebitAnswer), Seq<char>>(e@),
        },
{
    let pool_id = input.pool_id.as_str();
    let payer = input.payer_user_id.as_str();
    let run_id = input.run_id.as_str();
    if !valid_finance_id(pool_id) || !valid_finance_id(payer) || !valid_finance_id(
        input.quote_id.as_str(),
    ) || !valid_finance_id(run_id) || !valid_finance_id(input.debit_id.as_str())
        || !valid_finance_hash(input.usage_hash.as_str()) {
        return Err("invalid debit identifiers or usageHash".to_owned());
    }
    let mut pool = match ledger.pools.get(pool_id) {
        Some(pool) => pool.copy(),
        None => {
            return Err("pool not found".to_owned());
        },
    };
    let marker = join4("FinancePoolDebit::", authority, "::", input.debit_id.as_str());
    if !ledger.link(marker.as_str()).as_str().is_empty() {
        return Ok(DebitReply::Unchanged { remaining: pool.remaining });
    }
    match refuse_pool(&pool, authority, payer, now) {
        Some(e) => {
            return Err(e);
        },
        None => {},
    }
    let caps = match read_authorized_plan(
        &ledger.quotes,
        input.quote_id.as_str(),
        payer,
        "quote payer does not match debit",
        false,
    ) {
        Ok(caps) => caps,
        Err(e) => {
            return Err(e);
        },
    };
    let tally = match tally_lines(&input.lines, &caps, payer, Rules::Debit) {
        Ok(tally) => tally,
        Err(e) => {
            return Err(e);
        },
    };
    proof {
        law_a_tally_adds_up(lines_of(input.lines@), caps@, payer@, Rules::Debit);
        lemma_rows_positive(tally.users@, tally.sum as int);
        lemma_rows_positive(tally.roles@, tally.sum as int);
    }
    if tally.sum <= 0 {
        return Err("debit must charge a positive amount".to_owned());
    }
    if pool.remaining < tally.sum {
        return Ok(DebitReply::Exhausted { remaining: pool.remaining });
    }
    let wallets = match pay_from_pool(
        &ledger.wallets,
        payer,
        &tally.users,
        tally.sum,
        "debit beneficiary not found",
    ) {
        Ok(wallets) => wallets,
        Err(e) => {
            return Err(e);
        },
    };
    let spent: i64 = match pool.spent.checked_add(tally.sum) {
        Some(v) => v,
        None => {
            return Err("pool spent overflow".to_owned());
        },
    };
    let mut record = debit_record(&*ledger, input, now);
    record.charged_total = match record.charged_total.checked_add(tally.sum) {
        Some(v) => v,
        None => {
            return Err("run charged total overflow".to_owned());
        },
    };
    record.credits = match add_credits(&record.credits, &tally.roles) {
        Ok(credits) => credits,
        Err(e) => {
            return Err(e);
        },
    };
    record.last_debit_id = input.debit_id.clone();
    record.last_usage_hash = input.usage_hash.clone();
    record.updated_at = now;
    let remaining: i64 = pool.remaining - tally.sum;
    pool.remaining = remaining;
    pool.spent = spent;
    pool.updated_at = now;
    ledger.wallets = wallets;
    ledger.pools.put(pool_id, pool);
    ledger.live_debits.put(run_id, record);
    ledger.links.put(marker.as_str(), run_id.to_owned());
    let mut amounts = no_amounts();
    add_amount(&mut amounts, "amount", tally.sum);
    add_amount(&mut amounts, "remaining", remaining);
    assert(amounts_of(amounts@) =~= seq![
        ("amount"@, tally.sum as int),
        ("remaining"@, remaining as int),
    ]);
    let entry = JournalEntry {
        kind: "pool.debited".to_owned(),
        hold_id: pool_id.to_owned(),
        payer_user_id: payer.to_owned(),
        created_at: now,
        payload: write_figures(write_about_run(input.run_id.as_str()), &amounts),
    };
    let mut participants = pair(payer, authority);
    add_participants(&mut participants, &tally.users);
    ledger.write_finance_journal(journal_id, entry, &participants);
    Ok(DebitReply::Charged { charged: tally.sum, remaining, journal_id: journal_id.to_owned() })
}

} // verus!
