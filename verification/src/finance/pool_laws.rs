//! What pools hold, when runs draw on them, and what that does to everyone's funds.
use vstd::prelude::*;

use crate::finance::hold_duty_laws::can_fund;
use crate::finance::ids::is_finance_id;
use crate::finance::ledger::{wallet_of, Books, PoolState, ReservationState, Wallet};
use crate::finance::pool_runs::{
    slice_released, slice_reserved, ReleaseAnswer, ReleasePoolInput, ReservationAnswer,
    ReservePoolInput,
};
use crate::finance::pools::{
    pool_closed, pool_opened, pool_refreshed, ClosePoolInput, OpenPoolInput, PoolAnswer,
    RefreshPoolInput,
};
use crate::table::{law_lookup_after_store, lookup};

verus! {

broadcast use law_lookup_after_store;

/// Whether a wallet set an amount aside, free funds before withdrawable ones, of which `part` went
/// with it.
pub open spec fn sets_aside(was: Wallet, is: Wallet, amount: int, part: int) -> bool {
    let free = was.balance->0 - was.withdrawable;
    &&& part == if amount <= free {
        0
    } else {
        amount - free
    }
    &&& is.balance matches Some(left) && left == was.balance->0 - amount
    &&& is.withdrawable == was.withdrawable - part
    &&& is.held == was.held + amount
    &&& is.debt == was.debt && is.payout_held == was.payout_held
    &&& is.earned == was.earned && is.spent == was.spent
}

/// Whether a wallet got back an amount that was held, of which `part` may be withdrawn.
pub open spec fn takes_back(was: Wallet, is: Wallet, amount: int, part: int) -> bool {
    &&& was.balance is Some
    &&& is.balance matches Some(later) && later == was.balance->0 + amount
    &&& is.withdrawable == was.withdrawable + part
    &&& is.held == was.held - amount
    &&& is.debt == was.debt && is.payout_held == was.payout_held
    &&& is.earned == was.earned && is.spent == was.spent
}

// ---------------------------------------------------------------- opening

/// A first request for a pool is granted exactly where it names an authority and a meter, asks for
/// something, ends in the future, and the payer has the funds.
pub proof fn law_a_funded_pool_is_opened(
    books: Books,
    payer: Seq<char>,
    input: OpenPoolInput,
    now: i64,
    pool_id: Seq<char>,
    journal_id: Seq<char>,
)
    requires
        lookup(books.links, "FinancePoolOpen::"@ + payer + "::"@ + input.idempotency_key@) is None,
    ensures
        (pool_opened(books, payer, input, now, pool_id, journal_id) is Ok) == {
            &&& is_finance_id(input.settlement_authority@)
            &&& is_finance_id(input.meter_program_id@)
            &&& is_finance_id(input.idempotency_key@)
            &&& input.max_amount > 0
            &&& now < input.expires_at
            &&& can_fund(wallet_of(books.wallets, payer), input.max_amount as int)
        },
        pool_opened(books, payer, input, now, pool_id, journal_id) matches Ok((_, answer))
            ==> answer is Changed,
{
}

/// A pool that is opened sets its whole amount aside, all of it free for runs, and touches no other
/// wallet or record.
pub proof fn law_an_opened_pool_holds_its_amount(
    books: Books,
    payer: Seq<char>,
    input: OpenPoolInput,
    now: i64,
    pool_id: Seq<char>,
    journal_id: Seq<char>,
    after: Books,
    pool: PoolState,
    entry_id: Seq<char>,
)
    requires
        pool_opened(books, payer, input, now, pool_id, journal_id) == Ok::<
            (Books, PoolAnswer),
            Seq<char>,
        >((after, PoolAnswer::Changed { pool, journal_id: entry_id })),
    ensures
        entry_id == journal_id,
        sets_aside(
            wallet_of(books.wallets, payer),
            wallet_of(after.wallets, payer),
            input.max_amount as int,
            pool.withdrawable_amount,
        ),
        forall|user: Seq<char>|
            user != payer ==> #[trigger] wallet_of(after.wallets, user) == wallet_of(
                books.wallets,
                user,
            ),
        lookup(after.pools, pool_id) == Some(pool),
        forall|id: Seq<char>|
            id != pool_id ==> #[trigger] lookup(after.pools, id) == lookup(books.pools, id),
        pool.payer_user_id == payer,
        pool.max_amount == input.max_amount,
        pool.remaining == input.max_amount,
        pool.reserved == 0 && pool.spent == 0 && pool.refunded == 0,
        pool.settlement_authority == input.settlement_authority@,
        pool.meter_program_id == input.meter_program_id@,
        pool.status == "open"@,
        pool.expires_at == input.expires_at,
        pool.idempotency_key == input.idempotency_key@,
        pool.created_at == now && pool.updated_at == now,
        pool.close_id.len() == 0 && pool.close_reason.len() == 0,
        after == (Books {
            wallets: after.wallets,
            pools: after.pools,
            links: after.links,
            journal: after.journal,
            ..books
        }),
        lookup(after.journal, journal_id) matches Some(entry) && {
            &&& entry.kind == "pool.opened"@
            &&& entry.hold_id == pool_id
            &&& entry.payer_user_id == payer
            &&& entry.created_at == now
            &&& entry.payload.whole("maxAmount"@) == Some(input.max_amount)
            &&& entry.payload.whole("withdrawableAmount"@) == Some(pool.withdrawable_amount as i64)
        },
{
    lemma_payload_words();
    reveal_with_fuel(crate::finance::journal::figures, 4);
    let two = seq![("maxAmount"@, input.max_amount as int), ("withdrawableAmount"@, pool.withdrawable_amount)];
    assert(two.drop_last() =~= seq![("maxAmount"@, input.max_amount as int)]);
    assert(two.drop_last().drop_last() =~= Seq::empty());
}

/// The names of the figures that the journal keeps of pools differ.
pub proof fn lemma_payload_words()
    ensures
        "maxAmount"@.len() == 9,
        "withdrawableAmount"@.len() == 18,
        "amount"@.len() == 6,
        "refunded"@.len() == 8,
        "withdrawableRefunded"@.len() == 20,
        "runId"@.len() == 5,
        "actual"@.len() == 6,
        "refundedToPool"@.len() == 14,
        "remaining"@.len() == 9,
        "amount"@ != "actual"@,
        "maxAmount"@ != "remaining"@,
{
    reveal_strlit("maxAmount");
    reveal_strlit("withdrawableAmount");
    reveal_strlit("amount");
    reveal_strlit("refunded");
    reveal_strlit("withdrawableRefunded");
    reveal_strlit("runId");
    reveal_strlit("actual");
    reveal_strlit("refundedToPool");
    reveal_strlit("remaining");
    assert("amount"@[1] == 'm' && "actual"@[1] == 'c');
    assert("maxAmount"@[0] == 'm' && "remaining"@[0] == 'r');
}

// ---------------------------------------------------------------- refreshing

/// A first refresh of a pool is granted exactly where its payer asks for something while it is
/// open, has the funds, and the sums fit.
pub proof fn law_an_open_pool_can_be_refreshed(
    books: Books,
    payer: Seq<char>,
    input: RefreshPoolInput,
    now: i64,
    journal_id: Seq<char>,
    pool: PoolState,
)
    requires
        lookup(books.links, "FinancePoolRefresh::"@ + payer + "::"@ + input.refresh_id@) is None,
        lookup(books.pools, input.pool_id@) == Some(pool),
        0 <= pool.max_amount && pool.max_amount + input.amount <= i64::MAX,
        0 <= pool.remaining <= pool.max_amount,
        0 <= pool.withdrawable_amount <= pool.max_amount,
    ensures
        (pool_refreshed(books, payer, input, now, journal_id) is Ok) == {
            &&& is_finance_id(input.pool_id@)
            &&& is_finance_id(input.refresh_id@)
            &&& input.amount > 0
            &&& pool.payer_user_id == payer
            &&& pool.status == "open"@
            &&& can_fund(wallet_of(books.wallets, payer), input.amount as int)
        },
        pool_refreshed(books, payer, input, now, journal_id) matches Ok((_, answer))
            ==> answer is Changed,
{
}

/// A refreshed pool holds its amount more, free for runs, lasts until the new end where that is in
/// the future, and touches no other wallet or record.
pub proof fn law_a_refreshed_pool_holds_more(
    books: Books,
    payer: Seq<char>,
    input: RefreshPoolInput,
    now: i64,
    journal_id: Seq<char>,
    after: Books,
    pool: PoolState,
    entry_id: Seq<char>,
)
    requires
        pool_refreshed(books, payer, input, now, journal_id) == Ok::<
            (Books, PoolAnswer),
            Seq<char>,
        >((after, PoolAnswer::Changed { pool, journal_id: entry_id })),
    ensures
        entry_id == journal_id,
        lookup(books.pools, input.pool_id@) matches Some(was) && {
            &&& sets_aside(
                wallet_of(books.wallets, payer),
                wallet_of(after.wallets, payer),
                input.amount as int,
                pool.withdrawable_amount - was.withdrawable_amount,
            )
            &&& pool.max_amount == was.max_amount + input.amount
            &&& pool.remaining == was.remaining + input.amount
            &&& input.expires_at > now ==> pool.expires_at == input.expires_at
            &&& input.expires_at <= now ==> pool.expires_at == was.expires_at
            &&& pool.updated_at == now
            &&& pool == (PoolState {
                max_amount: pool.max_amount,
                remaining: pool.remaining,
                withdrawable_amount: pool.withdrawable_amount,
                expires_at: pool.expires_at,
                updated_at: pool.updated_at,
                ..was
            })
        },
        forall|user: Seq<char>|
            user != payer ==> #[trigger] wallet_of(after.wallets, user) == wallet_of(
                books.wallets,
                user,
            ),
        lookup(after.pools, input.pool_id@) == Some(pool),
        forall|id: Seq<char>|
            id != input.pool_id@ ==> #[trigger] lookup(after.pools, id) == lookup(books.pools, id),
        after == (Books {
            wallets: after.wallets,
            pools: after.pools,
            links: after.links,
            journal: after.journal,
            ..books
        }),
        lookup(after.journal, journal_id) matches Some(entry) && {
            &&& entry.kind == "pool.refreshed"@
            &&& entry.hold_id == input.pool_id@
            &&& entry.payer_user_id == payer
            &&& entry.created_at == now
            &&& entry.payload.whole("amount"@) == Some(input.amount)
            &&& entry.payload.whole("maxAmount"@) == Some(pool.max_amount as i64)
        },
{
    lemma_payload_words();
    reveal_with_fuel(crate::finance::journal::figures, 4);
    let two = seq![("amount"@, input.amount as int), ("maxAmount"@, pool.max_amount)];
    assert(two.drop_last() =~= seq![("amount"@, input.amount as int)]);
    assert(two.drop_last().drop_last() =~= Seq::empty());
}

// ---------------------------------------------------------------- closing

/// An open pool is closed exactly where its payer or its authority asks and no run has a slice of
/// it reserved; the payer's wallet can take back what is left.
pub proof fn law_an_idle_pool_can_be_closed(
    books: Books,
    caller: Seq<char>,
    input: ClosePoolInput,
    now: i64,
    journal_id: Seq<char>,
    pool: PoolState,
)
    requires
        lookup(books.pools, input.pool_id@) == Some(pool),
        0 <= pool.remaining && 0 <= pool.withdrawable_amount,
        0 <= pool.refunded && pool.refunded + pool.remaining <= i64::MAX,
        ({
            let w = wallet_of(books.wallets, pool.payer_user_id);
            &&& w.balance matches Some(balance) && balance + pool.remaining <= i64::MAX
            &&& 0 <= w.withdrawable && w.withdrawable + pool.remaining <= i64::MAX
            &&& w.held >= pool.remaining
        }),
        pool.status != "closed"@,
    ensures
        (pool_closed(books, caller, input, now, journal_id) is Ok) == {
            &&& is_finance_id(input.pool_id@)
            &&& is_finance_id(input.close_id@)
            &&& caller == pool.payer_user_id || caller == pool.settlement_authority
            &&& pool.status == "open"@
            &&& pool.reserved == 0
        },
        pool_closed(books, caller, input, now, journal_id) matches Ok((_, answer))
            ==> answer is Changed,
{
}

/// A closed pool gives its payer back everything that no run took, as much of it to withdraw as can
/// be, and touches no other wallet or record.
pub proof fn law_a_closed_pool_gives_back_the_rest(
    books: Books,
    caller: Seq<char>,
    input: ClosePoolInput,
    now: i64,
    journal_id: Seq<char>,
    after: Books,
    pool: PoolState,
    entry_id: Seq<char>,
)
    requires
        pool_closed(books, caller, input, now, journal_id) == Ok::<
            (Books, PoolAnswer),
            Seq<char>,
        >((after, PoolAnswer::Changed { pool, journal_id: entry_id })),
    ensures
        entry_id == journal_id,
        lookup(books.pools, input.pool_id@) matches Some(was) && {
            let payer = was.payer_user_id;
            let back = if was.remaining <= was.withdrawable_amount {
                was.remaining
            } else {
                was.withdrawable_amount
            };
            &&& caller == payer || caller == was.settlement_authority
            &&& was.status == "open"@ && was.reserved == 0
            &&& was.remaining > 0 ==> takes_back(
                wallet_of(books.wallets, payer),
                wallet_of(after.wallets, payer),
                was.remaining,
                back,
            )
            &&& was.remaining <= 0 ==> after.wallets == books.wallets
            &&& forall|user: Seq<char>|
                user != payer ==> #[trigger] wallet_of(after.wallets, user) == wallet_of(
                    books.wallets,
                    user,
                )
            &&& pool.status == "closed"@
            &&& pool.remaining == 0
            &&& pool.refunded == was.refunded + was.remaining
            &&& pool.close_id == input.close_id@
            &&& pool.close_reason == input.reason@
            &&& pool.updated_at == now
            &&& pool == (PoolState {
                status: pool.status,
                remaining: pool.remaining,
                refunded: pool.refunded,
                close_id: pool.close_id,
                close_reason: pool.close_reason,
                updated_at: pool.updated_at,
                ..was
            })
            &&& lookup(after.journal, journal_id) matches Some(entry) && {
                &&& entry.kind == "pool.closed"@
                &&& entry.hold_id == input.pool_id@
                &&& entry.payer_user_id == payer
                &&& entry.created_at == now
                &&& entry.payload.whole("refunded"@) == Some(was.remaining as i64)
                &&& entry.payload.whole("withdrawableRefunded"@) == Some(back as i64)
            }
        },
        lookup(after.pools, input.pool_id@) == Some(pool),
        forall|id: Seq<char>|
            id != input.pool_id@ ==> #[trigger] lookup(after.pools, id) == lookup(books.pools, id),
        after == (Books {
            wallets: after.wallets,
            pools: after.pools,
            links: after.links,
            journal: after.journal,
            ..books
        }),
{
    lemma_payload_words();
    reveal_with_fuel(crate::finance::journal::figures, 4);
    let was = lookup(books.pools, input.pool_id@)->0;
    let back = if was.remaining <= was.withdrawable_amount {
        was.remaining
    } else {
        was.withdrawable_amount
    };
    let two = seq![("refunded"@, was.remaining), ("withdrawableRefunded"@, back)];
    assert(two.drop_last() =~= seq![("refunded"@, was.remaining)]);
    assert(two.drop_last().drop_last() =~= Seq::empty());
}

// ---------------------------------------------------------------- reserving

/// A run that reserved nothing yet gets its slice of a pool exactly where the pool's authority asks
/// while the pool is open and not past, the quote is the payer's and for this run and amount, and
/// as much is left in the pool.
pub proof fn law_a_run_reserves_what_is_left(
    books: Books,
    authority: Seq<char>,
    input: ReservePoolInput,
    now: i64,
    journal_id: Seq<char>,
)
    requires
        lookup(books.reservations, input.run_id@) is None,
        lookup(books.pools, input.pool_id@) matches Some(pool) ==> 0 <= pool.reserved
            && pool.reserved + pool.remaining <= i64::MAX,
    ensures
        (slice_reserved(books, authority, input, now, journal_id) is Ok) == {
            &&& is_finance_id(input.pool_id@)
            &&& is_finance_id(input.payer_user_id@)
            &&& is_finance_id(input.quote_id@)
            &&& is_finance_id(input.run_id@)
            &&& input.max_amount > 0
            &&& lookup(books.pools, input.pool_id@) matches Some(pool) && {
                &&& pool.settlement_authority == authority
                &&& pool.payer_user_id == input.payer_user_id@
                &&& pool.status == "open"@
                &&& 0 < pool.expires_at
                &&& now <= pool.expires_at
                &&& input.max_amount <= pool.remaining
            }
            &&& lookup(books.quotes, input.quote_id@) matches Some(quote) && {
                &&& quote.text("payerUserId"@) == Some(input.payer_user_id@)
                &&& quote.text("requestId"@) == Some(input.run_id@)
                &&& quote.number("maxAmount"@) == Some(input.max_amount)
            }
        },
        slice_reserved(books, authority, input, now, journal_id) matches Ok((_, answer))
            ==> answer is Changed,
{
}

/// A slice that is reserved moves from what is left of the pool to what is reserved of it, and no
/// wallet changes.
pub proof fn law_a_reserved_slice_is_kept_for_its_run(
    books: Books,
    authority: Seq<char>,
    input: ReservePoolInput,
    now: i64,
    journal_id: Seq<char>,
    after: Books,
    run: ReservationState,
    entry_id: Seq<char>,
)
    requires
        slice_reserved(books, authority, input, now, journal_id) == Ok::<
            (Books, ReservationAnswer),
            Seq<char>,
        >((after, ReservationAnswer::Changed { reservation: run, journal_id: entry_id })),
    ensures
        entry_id == journal_id,
        lookup(books.pools, input.pool_id@) matches Some(was) && lookup(
            after.pools,
            input.pool_id@,
        ) == Some(
            PoolState {
                remaining: was.remaining - input.max_amount,
                reserved: was.reserved + input.max_amount,
                updated_at: now as int,
                ..was
            },
        ),
        lookup(after.reservations, input.run_id@) == Some(run),
        run.pool_id == input.pool_id@,
        run.payer_user_id == input.payer_user_id@,
        run.quote_id == input.quote_id@,
        run.amount == input.max_amount,
        run.status == "reserved"@,
        run.created_at == now,
        run.actual_amount == 0 && run.settlement_lines.len() == 0,
        run.settlement_id.len() == 0 && run.release_id.len() == 0,
        forall|id: Seq<char>|
            id != input.pool_id@ ==> #[trigger] lookup(after.pools, id) == lookup(books.pools, id),
        forall|id: Seq<char>|
            id != input.run_id@ ==> #[trigger] lookup(after.reservations, id) == lookup(
                books.reservations,
                id,
            ),
        after == (Books {
            pools: after.pools,
            reservations: after.reservations,
            links: after.links,
            journal: after.journal,
            ..books
        }),
        lookup(after.journal, journal_id) matches Some(entry) && {
            &&& entry.kind == "pool.reserved"@
            &&& entry.hold_id == input.pool_id@
            &&& entry.payer_user_id == input.payer_user_id@
            &&& entry.created_at == now
            &&& entry.payload.text("runId"@) == Some(input.run_id@)
            &&& entry.payload.whole("amount"@) == Some(input.max_amount)
        },
{
    lemma_payload_words();
    reveal_with_fuel(crate::finance::journal::figures, 4);
    let one = seq![("amount"@, input.max_amount as int)];
    assert(one.drop_last() =~= Seq::empty());
}

// ---------------------------------------------------------------- releasing

/// A reserved slice is released exactly where the pool's authority asks, or its payer once the pool
/// is past; it then goes back to what is left of the pool, and no wallet changes.
pub proof fn law_a_reserved_slice_can_be_released(
    books: Books,
    caller: Seq<char>,
    input: ReleasePoolInput,
    now: i64,
    journal_id: Seq<char>,
    run: ReservationState,
    pool: PoolState,
)
    requires
        lookup(books.reservations, input.run_id@) == Some(run),
        lookup(books.pools, input.pool_id@) == Some(pool),
        run.status != "released"@,
        0 <= run.amount <= pool.reserved,
        0 <= pool.remaining && pool.remaining + pool.reserved <= i64::MAX,
    ensures
        (slice_released(books, caller, input, now, journal_id) is Ok) == {
            &&& is_finance_id(input.pool_id@)
            &&& is_finance_id(input.payer_user_id@)
            &&& is_finance_id(input.run_id@)
            &&& is_finance_id(input.release_id@)
            &&& run.status == "reserved"@
            &&& run.pool_id == input.pool_id@
            &&& run.payer_user_id == input.payer_user_id@
            &&& caller == pool.settlement_authority || caller == input.payer_user_id@ && 0
                < pool.expires_at < now
        },
        slice_released(books, caller, input, now, journal_id) matches Ok((after, answer)) ==> {
            &&& answer == (ReleaseAnswer::Released { amount: run.amount, journal_id })
            &&& lookup(after.pools, input.pool_id@) == Some(
                PoolState {
                    remaining: pool.remaining + run.amount,
                    reserved: pool.reserved - run.amount,
                    updated_at: now as int,
                    ..pool
                },
            )
            &&& lookup(after.reservations, input.run_id@) == Some(
                ReservationState {
                    status: "released"@,
                    release_id: input.release_id@,
                    release_reason: input.reason@,
                    released_at: now as int,
                    ..run
                },
            )
            &&& forall|id: Seq<char>|
                id != input.pool_id@ ==> #[trigger] lookup(after.pools, id) == lookup(
                    books.pools,
                    id,
                )
            &&& forall|id: Seq<char>|
                id != input.run_id@ ==> #[trigger] lookup(after.reservations, id) == lookup(
                    books.reservations,
                    id,
                )
            &&& after == (Books {
                pools: after.pools,
                reservations: after.reservations,
                links: after.links,
                journal: after.journal,
                ..books
            })
            &&& lookup(after.journal, journal_id) matches Some(entry) && {
                &&& entry.kind == "pool.released"@
                &&& entry.hold_id == input.pool_id@
                &&& entry.payer_user_id == input.payer_user_id@
                &&& entry.created_at == now
                &&& entry.payload.text("runId"@) == Some(input.run_id@)
                &&& entry.payload.whole("amount"@) == Some(run.amount as i64)
            }
        },
{
    lemma_payload_words();
    reveal_with_fuel(crate::finance::journal::figures, 4);
    let one = seq![("amount"@, run.amount)];
    assert(one.drop_last() =~= Seq::empty());
}

/// Releasing a slice undoes reserving it: the pool has as much left and reserved as before.
pub proof fn law_releasing_a_slice_undoes_reserving_it(
    books: Books,
    authority: Seq<char>,
    input: ReservePoolInput,
    now: i64,
    journal_id: Seq<char>,
    between: Books,
    run: ReservationState,
    entry_id: Seq<char>,
    caller: Seq<char>,
    release: ReleasePoolInput,
    later: i64,
    other_id: Seq<char>,
    after: Books,
    answer: ReleaseAnswer,
)
    requires
        slice_reserved(books, authority, input, now, journal_id) == Ok::<
            (Books, ReservationAnswer),
            Seq<char>,
        >((between, ReservationAnswer::Changed { reservation: run, journal_id: entry_id })),
        release.run_id@ == input.run_id@,
        slice_released(between, caller, release, later, other_id) == Ok::<
            (Books, ReleaseAnswer),
            Seq<char>,
        >((after, answer)),
        answer is Released,
    ensures
        after.wallets == books.wallets,
        lookup(books.pools, input.pool_id@) matches Some(was) && lookup(
            after.pools,
            input.pool_id@,
        ) == Some(PoolState { updated_at: later as int, ..was }),
{
}

} // verus!
