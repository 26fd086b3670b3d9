//! Pools: a payer's standing authorization that many runs draw down together.
//!
//! Every transition of a pool keeps its amounts in balance: what was put in is what
//! remains, is reserved, was spent, or was refunded.
use vstd::prelude::*;

use crate::finance::holds::smaller;
use crate::finance::ids::{is_finance_id, valid_finance_id};
use crate::finance::journal::{add_amount, amounts_of, figures, no_amounts, write_figures};
use crate::finance::ledger::{
    journaled, link_of, wallet_in, wallet_of, Books, Entry, JournalEntry, Ledger, Pool, PoolState,
    Wallet,
};
use crate::finance::moves::{give_funds_back, given_back, set_aside, set_funds_aside};
use crate::json::{no_fields, object};
use crate::table::{law_lookup_after_store, lookup, stored, Rows};
use crate::text::{join2, join4, same, texts};

verus! {

broadcast use {vstd::string::group_string_axioms, law_lookup_after_store};

/// Whether 64 bits hold a number.
pub open spec fn fits(n: int) -> bool {
    i64::MIN <= n <= i64::MAX
}

/// A pool whose amounts add up to what was put in.
pub open spec fn is_balanced(pool: PoolState) -> bool {
    pool.max_amount == pool.remaining + pool.reserved + pool.spent + pool.refunded
}

pub(crate) fn pair(a: &str, b: &str) -> (r: Vec<String>)
    ensures
        texts(r@) == seq![a@, b@],
{
    let mut out: Vec<String> = Vec::new();
    out.push(a.to_owned());
    out.push(b.to_owned());
    assert(texts(out@) =~= seq![a@, b@]);
    out
}

// ---------------------------------------------------------------- answers

/// What an action on a pool answers: the pool it changed and the journal entry, or the
/// pool as an earlier request left it.
pub enum PoolReply {
    Changed { pool: Pool, journal_id: String },
    Unchanged { pool: Pool },
}

/// The answer of an action on a pool, as texts and numbers.
pub enum PoolAnswer {
    Changed { pool: PoolState, journal_id: Seq<char> },
    Unchanged { pool: PoolState },
}

impl View for PoolReply {
    type V = PoolAnswer;

    open spec fn view(&self) -> PoolAnswer {
        match self {
            PoolReply::Changed { pool, journal_id } => PoolAnswer::Changed {
                pool: pool@,
                journal_id: journal_id@,
            },
            PoolReply::Unchanged { pool } => PoolAnswer::Unchanged { pool: pool@ },
        }
    }
}

/// The books and the answer after an action on a pool, or why it was refused.
pub type PoolOutcome = Result<(Books, PoolAnswer), Seq<char>>;

/// The answer to a request that was applied before: the pool as it is now.
pub open spec fn pool_replayed(books: Books, pool_id: Seq<char>) -> PoolOutcome {
    match lookup(books.pools, pool_id) {
        Some(pool) => Ok((books, PoolAnswer::Unchanged { pool })),
        None => Err("pool not found"@),
    }
}

fn replay_pool(ledger: &Ledger, pool_id: &str) -> (r: Result<PoolReply, String>)
    ensures
        match r {
            Ok(reply) => pool_replayed(ledger@, pool_id@) == Ok::<(Books, PoolAnswer), Seq<char>>(
                (ledger@, reply@),
            ),
            Err(e) => pool_replayed(ledger@, pool_id@) == Err::<(Books, PoolAnswer), Seq<char>>(e@),
        },
{
    match ledger.pools.get(pool_id) {
        Some(pool) => Ok(PoolReply::Unchanged { pool: pool.copy() }),
        None => Err("pool not found".to_owned()),
    }
}

/// Why a wallet with debt may not authorize anything.
pub open spec fn debt_refusal(w: Wallet) -> Option<Seq<char>> {
    if w.debt < 0 {
        Some("invalid wallet debt"@)
    } else if w.debt > 0 {
        Some("wallet has outstanding payment debt"@)
    } else {
        None
    }
}

fn refuse_debt(w: &Wallet) -> (r: Option<String>)
    ensures
        match r {
            Some(e) => debt_refusal(*w) == Some(e@),
            None => debt_refusal(*w) is None,
        },
{
    if w.debt < 0 {
        Some("invalid wallet debt".to_owned())
    } else if w.debt > 0 {
        Some("wallet has outstanding payment debt".to_owned())
    } else {
        None
    }
}

// ---------------------------------------------------------------- open

/// A request to open a pool.
pub struct OpenPoolInput {
    pub max_amount: i64,
    pub settlement_authority: String,
    pub meter_program_id: String,
    pub expires_at: i64,
    pub idempotency_key: String,
}

/// What opening a pool does.
pub open spec fn pool_opened(
    books: Books,
    payer: Seq<char>,
    input: OpenPoolInput,
    now: i64,
    pool_id: Seq<char>,
    journal_id: Seq<char>,
) -> PoolOutcome {
    let marker = "FinancePoolOpen::"@ + payer + "::"@ + input.idempotency_key@;
    let existing = link_of(books.links, marker);
    let w = wallet_of(books.wallets, payer);
    let amount = input.max_amount as int;
    if !is_finance_id(input.settlement_authority@) || !is_finance_id(input.meter_program_id@)
        || !is_finance_id(input.idempotency_key@) {
        Err("invalid authority, meter, or idempotency identifier"@)
    } else if amount <= 0 {
        Err("maxAmount must be greater than zero"@)
    } else if input.expires_at <= now {
        Err("pool expiry must be in the future"@)
    } else if existing.len() > 0 {
        pool_replayed(books, existing)
    } else if debt_refusal(w) is Some {
        Err(debt_refusal(w)->0)
    } else if w.balance is None {
        Err("payer creature not found"@)
    } else {
        match set_aside(w, amount, "insufficient available balance to open this pool"@) {
            Err(e) => Err(e),
            Ok((next, part)) => {
                let pool = PoolState {
                    payer_user_id: payer,
                    max_amount: amount,
                    remaining: amount,
                    reserved: 0,
                    spent: 0,
                    refunded: 0,
                    withdrawable_amount: part,
                    settlement_authority: input.settlement_authority@,
                    meter_program_id: input.meter_program_id@,
                    status: "open"@,
                    expires_at: input.expires_at as int,
                    idempotency_key: input.idempotency_key@,
                    created_at: now as int,
                    updated_at: now as int,
                    close_id: Seq::empty(),
                    close_reason: Seq::empty(),
                };
                let written = Books {
                    wallets: stored(books.wallets, payer, next),
                    pools: stored(books.pools, pool_id, pool),
                    links: stored(
                        stored(books.links, marker, pool_id),
                        "FinancePoolByUser::"@ + payer,
                        pool_id,
                    ),
                    ..books
                };
                let entry = Entry {
                    kind: "pool.opened"@,
                    hold_id: pool_id,
                    payer_user_id: payer,
                    created_at: now as int,
                    payload: figures(no_fields(), seq![("maxAmount"@, amount), ("withdrawableAmount"@, part)]),
                };
                Ok(
                    (
                        journaled(
                            written,
                            journal_id,
                            entry,
                            seq![payer, input.settlement_authority@],
                        ),
                        PoolAnswer::Changed { pool, journal_id },
                    ),
                )
            },
        }
    }
}

/// Open a pool with funds of the payer.
pub fn open_pool(
    ledger: &mut Ledger,
    payer: &str,
    input: &OpenPoolInput,
    now: i64,
    pool_id: &str,
    journal_id: &str,
) -> (r: Result<PoolReply, String>)
    ensures
        match r {
            Ok(reply) => pool_opened(old(ledger)@, payer@, *input, now, pool_id@, journal_id@)
                == Ok::<(Books, PoolAnswer), Seq<char>>((final(ledger)@, reply@)),
            Err(e) => final(ledger)@ == old(ledger)@ && pool_opened(
                old(ledger)@,
                payer@,
                *input,
                now,
                pool_id@,
                journal_id@,
            ) == Err::<(Books, PoolAnswer), Seq<char>>(e@),
        },
{
    if !valid_finance_id(input.settlement_authority.as_str()) || !valid_finance_id(
        input.meter_program_id.as_str(),
    ) || !valid_finance_id(input.idempotency_key.as_str()) {
        return Err("invalid authority, meter, or idempotency identifier".to_owned());
    }
    if input.max_amount <= 0 {
        return Err("maxAmount must be greater than zero".to_owned());
    }
    if input.expires_at <= now {
        return Err("pool expiry must be in the future".to_owned());
    }
    let marker = join4("FinancePoolOpen::", payer, "::", input.idempotency_key.as_str());
    let existing = ledger.link(marker.as_str());
    if !existing.as_str().is_empty() {
        return replay_pool(&*ledger, existing.as_str());
    }
    let w = wallet_in(&ledger.wallets, payer);
    match refuse_debt(&w) {
        Some(e) => {
            return Err(e);
        },
        None => {},
    }
    if w.balance.is_none() {
        return Err("payer creature not found".to_owned());
    }
    let (next, part) = match set_funds_aside(
        w,
        input.max_amount,
        "insufficient available balance to open this pool",
    ) {
        Ok(moved) => moved,
        Err(e) => {
            return Err(e);
        },
    };
    let empty = String::new();
    assert(empty@ =~= Seq::<char>::empty());
    let pool = Pool {
        payer_user_id: payer.to_owned(),
        max_amount: input.max_amount,
        remaining: input.max_amount,
        reserved: 0,
        spent: 0,
        refunded: 0,
        withdrawable_amount: part,
        settlement_authority: input.settlement_authority.clone(),
        meter_program_id: input.meter_program_id.clone(),
        status: "open".to_owned(),
        expires_at: input.expires_at,
        idempotency_key: input.idempotency_key.clone(),
        created_at: now,
        updated_at: now,
        close_id: empty.clone(),
        close_reason: empty,
    };
    let reply = PoolReply::Changed { pool: pool.copy(), journal_id: journal_id.to_owned() };
    ledger.wallets.put(payer, next);
    ledger.pools.put(pool_id, pool);
    ledger.links.put(marker.as_str(), pool_id.to_owned());
    let index = join2("FinancePoolByUser::", payer);
    ledger.links.put(index.as_str(), pool_id.to_owned());
    let mut amounts = no_amounts();
    add_amount(&mut amounts, "maxAmount", input.max_amount);
    add_amount(&mut amounts, "withdrawableAmount", part);
    assert(amounts_of(amounts@) =~= seq![
        ("maxAmount"@, input.max_amount as int),
        ("withdrawableAmount"@, part as int),
    ]);
    let entry = JournalEntry {
        kind: "pool.opened".to_owned(),
        hold_id: pool_id.to_owned(),
        payer_user_id: payer.to_owned(),
        created_at: now,
        payload: write_figures(object(), &amounts),
    };
    let participants = pair(payer, input.settlement_authority.as_str());
    ledger.write_finance_journal(journal_id, entry, &participants);
    Ok(reply)
}

// ---------------------------------------------------------------- refresh

/// A request to add funds to an open pool.
pub struct RefreshPoolInput {
    pub pool_id: String,
    pub amount: i64,
    pub refresh_id: String,
    pub expires_at: i64,
}

/// What refreshing a pool does.
pub open spec fn pool_refreshed(
    books: Books,
    payer: Seq<char>,
    input: RefreshPoolInput,
    now: i64,
    journal_id: Seq<char>,
) -> PoolOutcome {
    let marker = "FinancePoolRefresh::"@ + payer + "::"@ + input.refresh_id@;
    let w = wallet_of(books.wallets, payer);
    let amount = input.amount as int;
    if !is_finance_id(input.pool_id@) || !is_finance_id(input.refresh_id@) {
        Err("invalid pool or refresh identifier"@)
    } else if amount <= 0 {
        Err("refresh amount must be greater than zero"@)
    } else if link_of(books.links, marker).len() > 0 {
        pool_replayed(books, input.pool_id@)
    } else if debt_refusal(w) is Some {
        Err(debt_refusal(w)->0)
    } else {
        match lookup(books.pools, input.pool_id@) {
            None => Err("pool not found"@),
            Some(pool) => if pool.payer_user_id != payer {
                Err("pool does not belong to caller"@)
            } else if pool.status != "open"@ {
                Err("pool is not open"@)
            } else if w.balance is None {
                Err("payer creature not found"@)
            } else {
                match set_aside(w, amount, "insufficient available balance to refresh this pool"@) {
                    Err(e) => Err(e),
                    Ok((next, part)) => if !fits(pool.max_amount + amount) {
                        Err("pool maxAmount overflow"@)
                    } else if !fits(pool.remaining + amount) {
                        Err("pool remaining overflow"@)
                    } else if !fits(pool.withdrawable_amount + part) {
                        Err("pool withdrawable overflow"@)
                    } else {
                        let refreshed = PoolState {
                            max_amount: pool.max_amount + amount,
                            remaining: pool.remaining + amount,
                            withdrawable_amount: pool.withdrawable_amount + part,
                            expires_at: if input.expires_at > now {
                                input.expires_at as int
                            } else {
                                pool.expires_at
                            },
                            updated_at: now as int,
                            ..pool
                        };
                        let written = Books {
                            wallets: stored(books.wallets, payer, next),
                            pools: stored(books.pools, input.pool_id@, refreshed),
                            links: stored(books.links, marker, input.pool_id@),
                            ..books
                        };
                        let entry = Entry {
                            kind: "pool.refreshed"@,
                            hold_id: input.pool_id@,
                            payer_user_id: payer,
                            created_at: now as int,
                            payload: figures(no_fields(), seq![
                                ("amount"@, amount),
                                ("maxAmount"@, refreshed.max_amount),
                            ]),
                        };
                        Ok(
                            (
                                journaled(
                                    written,
                                    journal_id,
                                    entry,
                                    seq![payer, pool.settlement_authority],
                                ),
                                PoolAnswer::Changed { pool: refreshed, journal_id },
                            ),
                        )
                    },
                }
            },
        }
    }
}

/// Add funds of the payer to an open pool.
pub fn refresh_pool(
    ledger: &mut Ledger,
    payer: &str,
    input: &RefreshPoolInput,
    now: i64,
    journal_id: &str,
) -> (r: Result<PoolReply, String>)
    ensures
        match r {
            Ok(reply) => pool_refreshed(old(ledger)@, payer@, *input, now, journal_id@) == Ok::<
                (Books, PoolAnswer),
                Seq<char>,
            >((final(ledger)@, reply@)),
            Err(e) => final(ledger)@ == old(ledger)@ && pool_refreshed(
                old(ledger)@,
                payer@,
                *input,
                now,
                journal_id@,
            ) == Err::<(Books, PoolAnswer), Seq<char>>(e@),
        },
{
    let pool_id = input.pool_id.as_str();
    if !valid_finance_id(pool_id) || !valid_finance_id(input.refresh_id.as_str()) {
        return Err("invalid pool or refresh identifier".to_owned());
    }
    if input.amount <= 0 {
        return Err("refresh amount must be greater than zero".to_owned());
    }
    let marker = join4("FinancePoolRefresh::", payer, "::", input.refresh_id.as_str());
    if !ledger.link(marker.as_str()).as_str().is_empty() {
        return replay_pool(&*ledger, pool_id);
    }
    let w = wallet_in(&ledger.wallets, payer);
    match refuse_debt(&w) {
        Some(e) => {
            return Err(e);
        },
        None => {},
    }
    let mut pool = match ledger.pools.get(pool_id) {
        Some(pool) => pool.copy(),
        None => {
            return Err("pool not found".to_owned());
        },
    };
    if !same(pool.payer_user_id.as_str(), payer) {
        return Err("pool does not belong to caller".to_owned());
    }
    if !same(pool.status.as_str(), "open") {
        return Err("pool is not open".to_owned());
    }
    if w.balance.is_none() {
        return Err("payer creature not found".to_owned());
    }
    let (next, part) = match set_funds_aside(
        w,
        input.amount,
        "insufficient available balance to refresh this pool",
    ) {
        Ok(moved) => moved,
        Err(e) => {
            return Err(e);
        },
    };
    let max_amount: i64 = match pool.max_amount.checked_add(input.amount) {
        Some(v) => v,
        None => {
            return Err("pool maxAmount overflow".to_owned());
        },
    };
    let remaining: i64 = match pool.remaining.checked_add(input.amount) {
        Some(v) => v,
        None => {
            return Err("pool remaining overflow".to_owned());
        },
    };
    let withdrawable: i64 = match pool.withdrawable_amount.checked_add(part) {
        Some(v) => v,
        None => {
            return Err("pool withdrawable overflow".to_owned());
        },
    };
    if input.expires_at > now {
        pool.expires_at = input.expires_at;
    }
    pool.max_amount = max_amount;
    pool.remaining = remaining;
    pool.withdrawable_amount = withdrawable;
    pool.updated_at = now;
    let reply = PoolReply::Changed { pool: pool.copy(), journal_id: journal_id.to_owned() };
    let participants = pair(payer, pool.settlement_authority.as_str());
    ledger.wallets.put(payer, next);
    ledger.pools.put(pool_id, pool);
    ledger.links.put(marker.as_str(), pool_id.to_owned());
    let mut amounts = no_amounts();
    add_amount(&mut amounts, "amount", input.amount);
    add_amount(&mut amounts, "maxAmount", max_amount);
    assert(amounts_of(amounts@) =~= seq![
        ("amount"@, input.amount as int),
        ("maxAmount"@, max_amount as int),
    ]);
    let entry = JournalEntry {
        kind: "pool.refreshed".to_owned(),
        hold_id: pool_id.to_owned(),
        payer_user_id: payer.to_owned(),
        created_at: now,
        payload: write_figures(object(), &amounts),
    };
    ledger.write_finance_journal(journal_id, entry, &participants);
    Ok(reply)
}

// ---------------------------------------------------------------- close

/// A request to close a pool.
pub struct ClosePoolInput {
    pub pool_id: String,
    pub close_id: String,
    pub reason: String,
}

/// The wallets after a pool's remaining funds went back to its payer.
pub open spec fn closed_wallets(
    wallets: Rows<Wallet>,
    payer: Seq<char>,
    remaining: int,
    back: int,
) -> Result<Rows<Wallet>, Seq<char>> {
    if remaining > 0 {
        match given_back(wallet_of(wallets, payer), remaining, back, remaining) {
            Err(e) => Err(e),
            Ok(w) => Ok(stored(wallets, payer, w)),
        }
    } else {
        Ok(wallets)
    }
}

/// What closing a pool does.
pub open spec fn pool_closed(
    books: Books,
    caller: Seq<char>,
    input: ClosePoolInput,
    now: i64,
    journal_id: Seq<char>,
) -> PoolOutcome {
    let marker = "FinancePoolClose::"@ + input.pool_id@;
    if !is_finance_id(input.pool_id@) || !is_finance_id(input.close_id@) {
        Err("invalid pool or close identifier"@)
    } else {
        match lookup(books.pools, input.pool_id@) {
            None => Err("pool not found"@),
            Some(pool) => {
                let payer = pool.payer_user_id;
                let back = smaller(pool.remaining, pool.withdrawable_amount);
                if caller != payer && caller != pool.settlement_authority {
                    Err("caller may not close this pool"@)
                } else if pool.status == "closed"@ {
                    if link_of(books.links, marker) == input.close_id@ {
                        Ok((books, PoolAnswer::Unchanged { pool }))
                    } else {
                        Err("pool is already closed"@)
                    }
                } else if pool.status != "open"@ {
                    Err("pool is not open"@)
                } else if pool.reserved != 0 {
                    Err("pool has in-flight run reservations; cannot close yet"@)
                } else {
                    match closed_wallets(books.wallets, payer, pool.remaining, back) {
                        Err(e) => Err(e),
                        Ok(wallets) => if !fits(pool.refunded + pool.remaining) {
                            Err("pool refunded overflow"@)
                        } else {
                            let closed = PoolState {
                                status: "closed"@,
                                refunded: pool.refunded + pool.remaining,
                                remaining: 0,
                                close_id: input.close_id@,
                                close_reason: input.reason@,
                                updated_at: now as int,
                                ..pool
                            };
                            let written = Books {
                                wallets,
                                pools: stored(books.pools, input.pool_id@, closed),
                                links: stored(books.links, marker, input.close_id@),
                                ..books
                            };
                            let entry = Entry {
                                kind: "pool.closed"@,
                                hold_id: input.pool_id@,
                                payer_user_id: payer,
                                created_at: now as int,
                                payload: figures(no_fields(), seq![
                                    ("refunded"@, pool.remaining),
                                    ("withdrawableRefunded"@, back),
                                ]),
                            };
                            Ok(
                                (
                                    journaled(
                                        written,
                                        journal_id,
                                        entry,
                                        seq![payer, pool.settlement_authority],
                                    ),
                                    PoolAnswer::Changed { pool: closed, journal_id },
                                ),
                            )
                        },
                    }
                }
            },
        }
    }
}

/// Close a pool and give its remaining funds back to the payer.
pub fn close_pool(
    ledger: &mut Ledger,
    caller: &str,
    input: &ClosePoolInput,
    now: i64,
    journal_id: &str,
) -> (r: Result<PoolReply, String>)
    ensures
        match r {
            Ok(reply) => pool_closed(old(ledger)@, caller@, *input, now, journal_id@) == Ok::<
                (Books, PoolAnswer),
                Seq<char>,
            >((final(ledger)@, reply@)),
            Err(e) => final(ledger)@ == old(ledger)@ && pool_closed(
                old(ledger)@,
                caller@,
                *input,
                now,
                journal_id@,
            ) == Err::<(Books, PoolAnswer), Seq<char>>(e@),
        },
{
    let pool_id = input.pool_id.as_str();
    if !valid_finance_id(pool_id) || !valid_finance_id(input.close_id.as_str()) {
        return Err("invalid pool or close identifier".to_owned());
    }
    let mut pool = match ledger.pools.get(pool_id) {
        Some(pool) => pool.copy(),
        None => {
            return Err("pool not found".to_owned());
        },
    };
    let payer = pool.payer_user_id.clone();
    let authority = pool.settlement_authority.clone();
    if !same(caller, payer.as_str()) && !same(caller, authority.as_str()) {
        return Err("caller may not close this pool".to_owned());
    }
    let marker = join2("FinancePoolClose::", pool_id);
    if same(pool.status.as_str(), "closed") {
        if same(ledger.link(marker.as_str()).as_str(), input.close_id.as_str()) {
            return Ok(PoolReply::Unchanged { pool });
        }
        return Err("pool is already closed".to_owned());
    }
    if !same(pool.status.as_str(), "open") {
        return Err("pool is not open".to_owned());
    }
    if pool.reserved != 0 {
        return Err("pool has in-flight run reservations; cannot close yet".to_owned());
    }
    let remaining: i64 = pool.remaining;
    let back: i64 = if remaining <= pool.withdrawable_amount {
        remaining
    } else {
        pool.withdrawable_amount
    };
    let mut moved: Option<Wallet> = None;
    if remaining > 0 {
        match give_funds_back(
            wallet_in(&ledger.wallets, payer.as_str()),
            remaining,
            back,
            remaining,
        ) {
            Ok(w) => {
                moved = Some(w);
            },
            Err(e) => {
                return Err(e);
            },
        }
    }
    let refunded: i64 = match pool.refunded.checked_add(remaining) {
        Some(v) => v,
        None => {
            return Err("pool refunded overflow".to_owned());
        },
    };
    pool.status = "closed".to_owned();
    pool.refunded = refunded;
    pool.remaining = 0;
    pool.close_id = input.close_id.clone();
    pool.close_reason = input.reason.clone();
    pool.updated_at = now;
    let reply = PoolReply::Changed { pool: pool.copy(), journal_id: journal_id.to_owned() };
    match moved {
        Some(w) => {
            ledger.wallets.put(payer.as_str(), w);
        },
        None => {},
    }
    ledger.pools.put(pool_id, pool);
    ledger.links.put(marker.as_str(), input.close_id.clone());
    let mut amounts = no_amounts();
    add_amount(&mut amounts, "refunded", remaining);
    add_amount(&mut amounts, "withdrawableRefunded", back);
    assert(amounts_of(amounts@) =~= seq![
        ("refunded"@, remaining as int),
        ("withdrawableRefunded"@, back as int),
    ]);
    let entry = JournalEntry {
        kind: "pool.closed".to_owned(),
        hold_id: pool_id.to_owned(),
        payer_user_id: payer.clone(),
        created_at: now,
        payload: write_figures(object(), &amounts),
    };
    let participants = pair(payer.as_str(), authority.as_str());
    ledger.write_finance_journal(journal_id, entry, &participants);
    Ok(reply)
}

} // verus!
