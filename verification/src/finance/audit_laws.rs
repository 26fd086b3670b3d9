//! What a reconciliation says of books that were kept well: nothing.
use vstd::prelude::*;

use crate::decimal::{decimal, law_written_numbers_read_back};
use crate::finance::accounts::is_active;
use crate::finance::holds::{
    hold_created, hold_released, hold_settled, hold_started, CreateHoldInput, HoldAnswer,
    HoldFacts, ReleaseHoldInput, SettleHoldInput, StartHoldInput,
};
use crate::finance::laws::{
    all_balanced, backing, hold_backing, is_backed, payout_backing, payouts_are_backed,
    pool_backing,
};
use crate::finance::ledger::{
    lines_of, no_wallet, wallet_of, Books, HoldState, Line, LiveDebitState, PayoutState, PoolState, ReservationState, Wallet,
};
use crate::finance::pools::is_balanced;
use crate::finance::reconcile::{
    counters_compared, counters_read, credits_replayed, debits_replayed, fresh_audit,
    hold_replayed, holds_replayed, is_accounted, is_pool_readable, lines_replayed, payouts_replayed, pools_replayed, reservations_replayed,
    reserved_compared, users_compared, Audit, Counter,
};
use crate::finance::settlement::{
    amount_in, caps_of, keys_of, law_a_tally_adds_up, tally_of, Rules,
};
use crate::order::ascending_once;
use crate::table::{
    distinct, law_lookup_after_store, lemma_lookup_push, lemma_lookup_row, lookup, stored,
    total, Rows,
};

verus! {

broadcast use law_lookup_after_store;

/// Records as a scan finds them where all can be read.
pub open spec fn found<T>(rows: Rows<T>) -> Rows<Option<T>> {
    rows.map_values(|row: (Seq<char>, T)| (row.0, Some(row.1)))
}

/// A counter of wallets as it is stored.
pub open spec fn counters_of(wallets: Rows<Wallet>, counter: spec_fn(Wallet) -> i64) -> Rows<
    Seq<char>,
> {
    wallets.map_values(|row: (Seq<char>, Wallet)| (row.0, decimal(counter(row.1) as int)))
}

/// What a wallet holds for active holds and open pools.
pub open spec fn held() -> spec_fn(Wallet) -> i64 {
    |w: Wallet| w.held
}

/// What a wallet keeps back for payouts.
pub open spec fn payout_held() -> spec_fn(Wallet) -> i64 {
    |w: Wallet| w.payout_held
}

/// Whether every hold has a payer and holds something.
pub open spec fn holds_are_valid(rows: Rows<HoldState>) -> bool {
    forall|i: int|
        0 <= i < rows.len() ==> (#[trigger] rows[i]).1.payer_user_id.len() > 0
            && rows[i].1.max_amount > 0
}

/// Whether every pool has a payer and no negative amount.
pub open spec fn pools_are_valid(rows: Rows<PoolState>) -> bool {
    forall|i: int| 0 <= i < rows.len() ==> is_pool_readable((#[trigger] rows[i]).1)
}

// ---------------------------------------------------------------- what is held

proof fn lemma_lines_keep_held(
    a: Audit,
    lines: Seq<Line>,
    code: Seq<char>,
    reference: Seq<char>,
    detail: Seq<char>,
)
    ensures
        lines_replayed(a, lines, code, reference, detail).0.held == a.held,
    decreases lines.len(),
{
    if lines.len() > 0 {
        lemma_lines_keep_held(a, lines.drop_last(), code, reference, detail);
    }
}

proof fn lemma_credits_keep_held(a: Audit, credits: Rows<i64>, id: Seq<char>)
    ensures
        credits_replayed(a, credits, id).0.held == a.held,
    decreases credits.len(),
{
    if credits.len() > 0 {
        lemma_credits_keep_held(a, credits.drop_last(), id);
    }
}

proof fn lemma_reservations_keep_held(a: Audit, rows: Rows<Option<ReservationState>>)
    ensures
        reservations_replayed(a, rows).held == a.held,
    decreases rows.len(),
{
    if rows.len() > 0 {
        lemma_reservations_keep_held(a, rows.drop_last());
        let before = reservations_replayed(a, rows.drop_last());
        if let Some(r) = rows.last().1 {
            lemma_lines_keep_held(
                before,
                r.settlement_lines,
                "reservation.line_invalid"@,
                rows.last().0,
                "invalid pool settlement line"@,
            );
        }
    }
}

proof fn lemma_debits_keep_held(a: Audit, rows: Rows<Option<LiveDebitState>>)
    ensures
        debits_replayed(a, rows).held == a.held,
    decreases rows.len(),
{
    if rows.len() > 0 {
        lemma_debits_keep_held(a, rows.drop_last());
        let before = debits_replayed(a, rows.drop_last());
        if let Some(d) = rows.last().1 {
            lemma_credits_keep_held(before, d.credits, rows.last().0);
        }
    }
}

proof fn lemma_comparing_keeps_held(a: Audit, rows: Rows<Option<PoolState>>)
    ensures
        reserved_compared(a, rows).held == a.held,
    decreases rows.len(),
{
    if rows.len() > 0 {
        lemma_comparing_keeps_held(a, rows.drop_last());
    }
}

/// The held funds that an audit of holds expects are those that the active ones set aside.
proof fn lemma_holds_expected(rows: Rows<HoldState>)
    requires
        holds_are_valid(rows),
        forall|user: Seq<char>| #[trigger] total(rows, hold_backing(user)) <= i64::MAX,
    ensures
        forall|user: Seq<char>|
            #![trigger hold_backing(user)]
            amount_in(holds_replayed(fresh_audit(), found(rows)).held, user) == total(
                rows,
                hold_backing(user),
            ) && total(rows, hold_backing(user)) >= 0,
    decreases rows.len(),
{
    if rows.len() > 0 {
        let front = rows.drop_last();
        let (id, hold) = rows.last();
        assert(hold == rows[rows.len() - 1].1);
        assert forall|i: int| 0 <= i < front.len() implies (
        #[trigger] front[i]).1.payer_user_id.len() > 0 && front[i].1.max_amount > 0 by {
            assert(front[i] == rows[i]);
        }
        assert(found(rows).drop_last() =~= found(front));
        assert(found(rows).last() == (id, Some(hold)));
        assert forall|user: Seq<char>| #[trigger] total(front, hold_backing(user)) <= i64::MAX by {
            assert(total(rows, hold_backing(user)) <= i64::MAX);
        }
        lemma_holds_expected(front);
        let a = holds_replayed(fresh_audit(), found(front));
        lemma_lines_keep_held(
            a,
            hold.settlement_lines,
            "settlement.line_invalid"@,
            id,
            "invalid beneficiary settlement line"@,
        );
        let payer = hold.payer_user_id;
        assert(total(rows, hold_backing(payer)) <= i64::MAX);
        let after = holds_replayed(fresh_audit(), found(rows));
        assert forall|user: Seq<char>|
            #![trigger hold_backing(user)]
            amount_in(after.held, user) == total(rows, hold_backing(user)) && total(
                rows,
                hold_backing(user),
            ) >= 0 by {
            assert(amount_in(a.held, user) == total(front, hold_backing(user)));
            assert(amount_in(a.held, payer) == total(front, hold_backing(payer)));
        }
    }
}

/// The held funds that an audit of pools expects more are those that the open ones set
/// aside, and pools whose amounts add up are no fault.
proof fn lemma_pools_expected(a: Audit, rows: Rows<PoolState>)
    requires
        pools_are_valid(rows),
        forall|user: Seq<char>| 0 <= #[trigger] amount_in(a.held, user),
        forall|user: Seq<char>|
            amount_in(a.held, user) + #[trigger] total(rows, pool_backing(user)) <= i64::MAX,
    ensures
        forall|user: Seq<char>|
            #![trigger pool_backing(user)]
            amount_in(pools_replayed(a, found(rows)).held, user) == amount_in(a.held, user) + total(
                rows,
                pool_backing(user),
            ) && total(rows, pool_backing(user)) >= 0,
        (forall|i: int| 0 <= i < rows.len() ==> is_balanced((#[trigger] rows[i]).1))
            ==> pools_replayed(a, found(rows)).findings == a.findings,
    decreases rows.len(),
{
    if rows.len() > 0 {
        let front = rows.drop_last();
        let (id, pool) = rows.last();
        assert(pool == rows[rows.len() - 1].1);
        assert(is_pool_readable(pool));
        assert forall|i: int| 0 <= i < front.len() implies is_pool_readable(
            (#[trigger] front[i]).1,
        ) by {
            assert(front[i] == rows[i]);
        }
        assert(found(rows).drop_last() =~= found(front));
        assert(found(rows).last() == (id, Some(pool)));
        assert forall|user: Seq<char>|
            amount_in(a.held, user) + #[trigger] total(front, pool_backing(user)) <= i64::MAX by {
            assert(amount_in(a.held, user) + total(rows, pool_backing(user)) <= i64::MAX);
        }
        lemma_pools_expected(a, front);
        let before = pools_replayed(a, found(front));
        let after = pools_replayed(a, found(rows));
        let payer = pool.payer_user_id;
        assert(amount_in(a.held, payer) + total(rows, pool_backing(payer)) <= i64::MAX);
        assert(amount_in(before.held, payer) == amount_in(a.held, payer) + total(
            front,
            pool_backing(payer),
        ));
        assert forall|user: Seq<char>|
            #![trigger pool_backing(user)]
            amount_in(after.held, user) == amount_in(a.held, user) + total(
                rows,
                pool_backing(user),
            ) && total(rows, pool_backing(user)) >= 0 by {
            assert(amount_in(before.held, user) == amount_in(a.held, user) + total(
                front,
                pool_backing(user),
            ));
        }
        if forall|i: int| 0 <= i < rows.len() ==> is_balanced((#[trigger] rows[i]).1) {
            assert(is_balanced(rows[rows.len() - 1].1));
            assert forall|i: int| 0 <= i < front.len() implies is_balanced(
                (#[trigger] front[i]).1,
            ) by {
                assert(front[i] == rows[i]);
            }
        }
    }
}

/// What the active holds and the open pools of a user set aside is never negative.
proof fn lemma_backing(holds: Rows<HoldState>, pools: Rows<PoolState>, user: Seq<char>)
    requires
        holds_are_valid(holds),
        pools_are_valid(pools),
    ensures
        total(holds, hold_backing(user)) >= 0,
        total(pools, pool_backing(user)) >= 0,
    decreases holds.len() + pools.len(),
{
    if holds.len() > 0 {
        let front = holds.drop_last();
        assert(holds.last() == holds[holds.len() - 1]);
        assert forall|i: int| 0 <= i < front.len() implies (
        #[trigger] front[i]).1.payer_user_id.len() > 0 && front[i].1.max_amount > 0 by {
            assert(front[i] == holds[i]);
        }
        lemma_backing(front, pools, user);
    } else if pools.len() > 0 {
        let front = pools.drop_last();
        assert(is_pool_readable(pools[pools.len() - 1].1));
        assert forall|i: int| 0 <= i < front.len() implies is_pool_readable(
            (#[trigger] front[i]).1,
        ) by {
            assert(front[i] == pools[i]);
        }
        lemma_backing(holds, front, user);
    }
}

/// What the records of books say, with any reservations and live debits beside them.
pub open spec fn books_replayed(
    books: Books,
    reservations: Rows<Option<ReservationState>>,
    debits: Rows<Option<LiveDebitState>>,
) -> Audit {
    reserved_compared(
        debits_replayed(
            reservations_replayed(
                pools_replayed(holds_replayed(fresh_audit(), found(books.holds)), found(books.pools)),
                reservations,
            ),
            debits,
        ),
        found(books.pools),
    )
}

/// Where held funds are backed, an audit of the records expects exactly what each wallet
/// holds.
pub proof fn law_the_audit_expects_what_is_held(
    books: Books,
    reservations: Rows<Option<ReservationState>>,
    debits: Rows<Option<LiveDebitState>>,
    user: Seq<char>,
)
    requires
        is_backed(books),
        holds_are_valid(books.holds),
        pools_are_valid(books.pools),
    ensures
        amount_in(books_replayed(books, reservations, debits).held, user) == wallet_of(
            books.wallets,
            user,
        ).held,
{
    assert forall|u: Seq<char>| #[trigger] total(books.holds, hold_backing(u)) <= i64::MAX by {
        assert(wallet_of(books.wallets, u).held == backing(books, u));
        lemma_backing(books.holds, books.pools, u);
    }
    lemma_holds_expected(books.holds);
    let held = holds_replayed(fresh_audit(), found(books.holds));
    assert forall|u: Seq<char>| 0 <= #[trigger] amount_in(held.held, u) by {
        assert(amount_in(held.held, u) == total(books.holds, hold_backing(u)));
    }
    assert forall|u: Seq<char>|
        amount_in(held.held, u) + #[trigger] total(books.pools, pool_backing(u)) <= i64::MAX by {
        assert(wallet_of(books.wallets, u).held == backing(books, u));
        assert(amount_in(held.held, u) == total(books.holds, hold_backing(u)));
    }
    lemma_pools_expected(held, books.pools);
    let pools = pools_replayed(held, found(books.pools));
    lemma_reservations_keep_held(pools, reservations);
    lemma_debits_keep_held(reservations_replayed(pools, reservations), debits);
    lemma_comparing_keeps_held(
        debits_replayed(reservations_replayed(pools, reservations), debits),
        found(books.pools),
    );
    assert(wallet_of(books.wallets, user).held == backing(books, user));
    assert(amount_in(held.held, user) == total(books.holds, hold_backing(user)));
    assert(amount_in(pools.held, user) == amount_in(held.held, user) + total(
        books.pools,
        pool_backing(user),
    ));
}

// ---------------------------------------------------------------- the counters

/// The counters of wallets that a kind of counter accepts are read as they are, without a finding.
pub proof fn lemma_counters_read(
    a: Audit,
    wallets: Rows<Wallet>,
    counter: spec_fn(Wallet) -> i64,
    kind: Counter,
)
    requires
        distinct(wallets),
        counter(no_wallet()) == 0,
        forall|i: int| 0 <= i < wallets.len() ==> kind.accepts(counter((#[trigger] wallets[i]).1)),
    ensures
        counters_read(a, counters_of(wallets, counter), kind).0 == a,
        forall|user: Seq<char>|
            #[trigger] amount_in(counters_read(a, counters_of(wallets, counter), kind).1, user)
                == counter(wallet_of(wallets, user)),
    decreases wallets.len(),
{
    if wallets.len() > 0 {
        let front = wallets.drop_last();
        let (name, w) = wallets.last();
        assert(kind.accepts(counter(wallets[wallets.len() - 1].1)));
        assert forall|i: int| 0 <= i < front.len() implies kind.accepts(
            counter((#[trigger] front[i]).1),
        ) by {
            assert(front[i] == wallets[i]);
        }
        assert(distinct(front)) by {
            assert forall|i: int, j: int| 0 <= i < j < front.len() implies #[trigger] front[i].0
                != #[trigger] front[j].0 by {
                assert(front[i] == wallets[i] && front[j] == wallets[j]);
            }
        }
        lemma_counters_read(a, front, counter, kind);
        assert(counters_of(wallets, counter).drop_last() =~= counters_of(front, counter));
        assert(counters_of(wallets, counter).last() == (name, decimal(counter(w) as int)));
        law_written_numbers_read_back(counter(w));
        let actual = counters_read(a, counters_of(wallets, counter), kind).1;
        let before = counters_read(a, counters_of(front, counter), kind).1;
        assert(actual == stored(before, name, counter(w)));
        assert(wallets =~= front.push((name, w)));
        assert forall|user: Seq<char>| #[trigger] amount_in(actual, user) == counter(
            wallet_of(wallets, user),
        ) by {
            assert(amount_in(before, user) == counter(wallet_of(front, user)));
            lemma_lookup_push(front, (name, w), user);
            if user == name {
                lemma_lookup_row(wallets, wallets.len() - 1);
            }
        }
    } else {
        assert(counters_of(wallets, counter) =~= Seq::empty());
        assert forall|user: Seq<char>|
            #[trigger] amount_in(counters_read(a, counters_of(wallets, counter), kind).1, user)
                == counter(wallet_of(wallets, user)) by {}
    }
}

/// Counters that agree with the records give no finding.
pub proof fn lemma_no_mismatch(
    a: Audit,
    users: Seq<Seq<char>>,
    expected: Rows<i64>,
    actual: Rows<i64>,
    kind: Counter,
)
    requires
        forall|user: Seq<char>| #[trigger] amount_in(actual, user) == amount_in(expected, user),
    ensures
        users_compared(a, users, expected, actual, kind) == a,
    decreases users.len(),
{
    if users.len() > 0 {
        lemma_no_mismatch(a, users.drop_last(), expected, actual, kind);
        assert(amount_in(actual, users.last()) == amount_in(expected, users.last()));
    }
}

/// Where held funds are backed, a reconciliation finds no fault with the held counters.
pub proof fn law_backed_books_show_no_held_mismatch(
    books: Books,
    reservations: Rows<Option<ReservationState>>,
    debits: Rows<Option<LiveDebitState>>,
)
    requires
        is_backed(books),
        holds_are_valid(books.holds),
        pools_are_valid(books.pools),
        distinct(books.wallets),
    ensures
        counters_compared(
            books_replayed(books, reservations, debits),
            books_replayed(books, reservations, debits).held,
            counters_of(books.wallets, held()),
            Counter::Held,
        ) == books_replayed(books, reservations, debits),
{
    let a = books_replayed(books, reservations, debits);
    assert forall|i: int| 0 <= i < books.wallets.len() implies held()(
        (#[trigger] books.wallets[i]).1,
    ) >= 0 by {
        let user = books.wallets[i].0;
        lemma_lookup_row(books.wallets, i);
        assert(wallet_of(books.wallets, user).held == backing(books, user));
        lemma_backing(books.holds, books.pools, user);
    }
    lemma_counters_read(a, books.wallets, held(), Counter::Held);
    let actual = counters_read(a, counters_of(books.wallets, held()), Counter::Held).1;
    assert forall|user: Seq<char>| #[trigger] amount_in(actual, user) == amount_in(a.held, user) by {
        law_the_audit_expects_what_is_held(books, reservations, debits, user);
        assert(amount_in(actual, user) == wallet_of(books.wallets, user).held);
    }
    lemma_no_mismatch(
        a,
        ascending_once(keys_of(a.held) + keys_of(actual)),
        a.held,
        actual,
        Counter::Held,
    );
}

/// A reconciliation finds no fault with pools whose amounts add up, where held funds are
/// backed.
pub proof fn law_balanced_pools_show_no_fault(books: Books)
    requires
        is_backed(books),
        all_balanced(books),
        distinct(books.pools),
        holds_are_valid(books.holds),
        pools_are_valid(books.pools),
    ensures
        pools_replayed(
            holds_replayed(fresh_audit(), found(books.holds)),
            found(books.pools),
        ).findings == holds_replayed(fresh_audit(), found(books.holds)).findings,
{
    assert forall|u: Seq<char>| #[trigger] total(books.holds, hold_backing(u)) <= i64::MAX by {
        assert(wallet_of(books.wallets, u).held == backing(books, u));
        lemma_backing(books.holds, books.pools, u);
    }
    lemma_holds_expected(books.holds);
    let held = holds_replayed(fresh_audit(), found(books.holds));
    assert forall|u: Seq<char>| 0 <= #[trigger] amount_in(held.held, u) by {
        assert(amount_in(held.held, u) == total(books.holds, hold_backing(u)));
    }
    assert forall|u: Seq<char>|
        amount_in(held.held, u) + #[trigger] total(books.pools, pool_backing(u)) <= i64::MAX by {
        assert(wallet_of(books.wallets, u).held == backing(books, u));
        assert(amount_in(held.held, u) == total(books.holds, hold_backing(u)));
    }
    assert forall|i: int| 0 <= i < books.pools.len() implies is_balanced(
        (#[trigger] books.pools[i]).1,
    ) by {
        lemma_lookup_row(books.pools, i);
        assert(lookup(books.pools, books.pools[i].0) == Some(books.pools[i].1));
    }
    lemma_pools_expected(held, books.pools);
}

// ---------------------------------------------------------------- holds

/// What lines pay together.
pub open spec fn line_sum(lines: Seq<Line>) -> int
    decreases lines.len(),
{
    if lines.len() == 0 {
        0
    } else {
        line_sum(lines.drop_last()) + lines.last().amount
    }
}

/// Whether every line pays something to somebody.
pub open spec fn lines_pay(lines: Seq<Line>) -> bool {
    forall|i: int|
        0 <= i < lines.len() ==> (#[trigger] lines[i]).amount > 0 && lines[i].user_id.len() > 0
}

/// Whether the figures of a hold are those that its status calls for.
pub open spec fn is_sound(hold: HoldState) -> bool {
    &&& hold.payer_user_id.len() > 0
    &&& hold.max_amount > 0
    &&& {
        ||| is_active(hold) && hold.remaining_amount == hold.max_amount
        ||| hold.status == "settled"@ && is_accounted(hold) && lines_pay(hold.settlement_lines)
            && line_sum(hold.settlement_lines) == hold.actual_amount
        ||| (hold.status == "released"@ || hold.status == "expired"@) && hold.remaining_amount == 0
            && hold.refunded_amount == hold.max_amount
    }
}

/// Whether all holds are sound.
pub open spec fn all_sound(holds: Rows<HoldState>) -> bool {
    forall|id: Seq<char>|
        #![trigger lookup(holds, id)]
        lookup(holds, id) matches Some(hold) ==> is_sound(hold)
}

proof fn lemma_tallied_lines(lines: Seq<Line>, caps: Rows<i64>, payer: Seq<char>, rules: Rules)
    requires
        tally_of(lines, caps, payer, rules) is Ok,
    ensures
        lines_pay(lines),
        line_sum(lines) == tally_of(lines, caps, payer, rules)->Ok_0.sum,
    decreases lines.len(),
{
    if lines.len() > 0 {
        let front = lines.drop_last();
        lemma_tallied_lines(front, caps, payer, rules);
        assert forall|i: int| 0 <= i < lines.len() implies (#[trigger] lines[i]).amount > 0
            && lines[i].user_id.len() > 0 by {
            if i < front.len() {
                assert(front[i] == lines[i]);
            } else {
                assert(lines[i] == lines.last());
            }
        }
    }
}

/// A hold that is opened is sound.
pub proof fn law_an_opened_hold_is_sound(
    books: Books,
    payer: Seq<char>,
    input: CreateHoldInput,
    facts: HoldFacts,
    now: i64,
    hold_id: Seq<char>,
    journal_id: Seq<char>,
    after: Books,
    answer: HoldAnswer,
)
    requires
        payer.len() > 0,
        all_sound(books.holds),
        hold_created(books, payer, input, facts, now, hold_id, journal_id) == Ok::<
            (Books, HoldAnswer),
            Seq<char>,
        >((after, answer)),
    ensures
        is_sound(answer.hold),
        all_sound(after.holds),
{
    if answer.applied {
        assert forall|id: Seq<char>|
            #![trigger lookup(after.holds, id)]
            lookup(after.holds, id) matches Some(hold) ==> is_sound(hold) by {
            assert(lookup(books.holds, id) matches Some(hold) ==> is_sound(hold));
        }
    }
}

/// Starting, settling and releasing holds leaves sound holds sound.
pub proof fn law_holds_stay_sound(
    books: Books,
    caller: Seq<char>,
    start: StartHoldInput,
    settle: SettleHoldInput,
    release: ReleaseHoldInput,
    now: i64,
    journal_id: Seq<char>,
)
    requires
        all_sound(books.holds),
    ensures
        hold_started(books, caller, start, now, journal_id) matches Ok((after, _)) ==> all_sound(
            after.holds,
        ),
        hold_settled(books, caller, settle, now, journal_id) matches Ok((after, _)) ==> all_sound(
            after.holds,
        ),
        hold_released(books, caller, release, now, journal_id) matches Ok((after, _)) ==> all_sound(
            after.holds,
        ),
{
    lemma_statuses_differ();
    if let Ok((after, answer)) = hold_started(books, caller, start, now, journal_id) {
        lemma_one_more_sound(books.holds, start.hold_id@, answer.hold, after.holds);
    }
    if let Ok((after, answer)) = hold_settled(books, caller, settle, now, journal_id) {
        if answer.applied {
            let hold = lookup(books.holds, settle.hold_id@)->0;
            let lines = lines_of(settle.lines@);
            let caps = caps_of(hold.beneficiaries->0);
            lemma_tallied_lines(lines, caps, settle.payer_user_id@, Rules::Hold);
            law_a_tally_adds_up(lines, caps, settle.payer_user_id@, Rules::Hold);
        }
        lemma_one_more_sound(books.holds, settle.hold_id@, answer.hold, after.holds);
    }
    if let Ok((after, answer)) = hold_released(books, caller, release, now, journal_id) {
        lemma_one_more_sound(books.holds, release.hold_id@, answer.hold, after.holds);
    }
}

proof fn lemma_statuses_differ()
    ensures
        "open"@ != "settled"@,
        "open"@ != "released"@,
        "open"@ != "expired"@,
        "running"@ != "settled"@,
        "running"@ != "released"@,
        "running"@ != "expired"@,
        "settled"@ != "released"@,
        "settled"@ != "expired"@,
{
    reveal_strlit("open");
    reveal_strlit("running");
    reveal_strlit("settled");
    reveal_strlit("released");
    reveal_strlit("expired");
    assert("open"@[0] == 'o');
    assert("running"@[0] == 'r');
    assert("running"@[1] == 'u');
    assert("settled"@[0] == 's');
    assert("released"@[0] == 'r');
    assert("released"@[1] == 'e');
    assert("expired"@[0] == 'e');
}

proof fn lemma_one_more_sound(
    before: Rows<HoldState>,
    id: Seq<char>,
    hold: HoldState,
    after: Rows<HoldState>,
)
    requires
        all_sound(before),
        after == before || after == stored(before, id, hold) && is_sound(hold),
    ensures
        all_sound(after),
{
    assert forall|other: Seq<char>|
        #![trigger lookup(after, other)]
        lookup(after, other) matches Some(one) ==> is_sound(one) by {
        assert(lookup(before, other) matches Some(one) ==> is_sound(one));
    }
}

proof fn lemma_lines_no_fault(
    a: Audit,
    lines: Seq<Line>,
    code: Seq<char>,
    reference: Seq<char>,
    detail: Seq<char>,
)
    requires
        lines_pay(lines),
        forall|user: Seq<char>| 0 <= #[trigger] amount_in(a.earned, user),
        forall|user: Seq<char>|
            #[trigger] amount_in(a.earned, user) + line_sum(lines) <= i64::MAX,
    ensures
        lines_replayed(a, lines, code, reference, detail).1 == line_sum(lines),
        0 <= line_sum(lines),
        ({
            let b = lines_replayed(a, lines, code, reference, detail).0;
            b == Audit { earned: b.earned, ..a } && forall|user: Seq<char>|
                amount_in(a.earned, user) <= #[trigger] amount_in(b.earned, user) <= amount_in(
                    a.earned,
                    user,
                ) + line_sum(lines)
        }),
    decreases lines.len(),
{
    if lines.len() > 0 {
        let front = lines.drop_last();
        assert(lines.last() == lines[lines.len() - 1]);
        assert forall|i: int| 0 <= i < front.len() implies (#[trigger] front[i]).amount > 0
            && front[i].user_id.len() > 0 by {
            assert(front[i] == lines[i]);
        }
        assert forall|user: Seq<char>|
            #[trigger] amount_in(a.earned, user) + line_sum(front) <= i64::MAX by {
            assert(amount_in(a.earned, user) + line_sum(lines) <= i64::MAX);
        }
        lemma_lines_no_fault(a, front, code, reference, detail);
        let before = lines_replayed(a, front, code, reference, detail).0;
        let user = lines.last().user_id;
        assert(amount_in(a.earned, user) + line_sum(lines) <= i64::MAX);
        assert(amount_in(before.earned, user) <= amount_in(a.earned, user) + line_sum(front));
        let b = lines_replayed(a, lines, code, reference, detail).0;
        assert forall|other: Seq<char>|
            amount_in(a.earned, other) <= #[trigger] amount_in(b.earned, other) <= amount_in(
                a.earned,
                other,
            ) + line_sum(lines) by {
            assert(amount_in(before.earned, other) <= amount_in(a.earned, other) + line_sum(front));
        }
    }
}

/// A reconciliation finds no fault with a sound hold, as long as the totals that it adds to
/// can be held in 64 bits.
pub proof fn law_a_sound_hold_shows_no_fault(a: Audit, id: Seq<char>, hold: HoldState)
    requires
        is_sound(hold),
        forall|user: Seq<char>| 0 <= #[trigger] amount_in(a.earned, user),
        forall|user: Seq<char>|
            #[trigger] amount_in(a.earned, user) + hold.max_amount <= i64::MAX,
        amount_in(a.held, hold.payer_user_id) + hold.max_amount <= i64::MAX,
        amount_in(a.spent, hold.payer_user_id) + hold.max_amount <= i64::MAX,
        amount_in(a.project_reserved, hold.project_id) + hold.max_amount <= i64::MAX,
        amount_in(a.project_spent, hold.project_id) + hold.max_amount <= i64::MAX,
    ensures
        hold_replayed(a, id, Some(hold)).findings == a.findings,
{
    lemma_statuses_differ();
    if hold.status == "settled"@ {
        assert forall|user: Seq<char>|
            #[trigger] amount_in(a.earned, user) + line_sum(hold.settlement_lines) <= i64::MAX by {
            assert(amount_in(a.earned, user) + hold.max_amount <= i64::MAX);
        }
        lemma_lines_no_fault(
            a,
            hold.settlement_lines,
            "settlement.line_invalid"@,
            id,
            "invalid beneficiary settlement line"@,
        );
    }
}

// ---------------------------------------------------------------- payouts

/// Whether every pending payout goes to somebody and asks for something.
pub open spec fn payouts_are_valid(rows: Rows<PayoutState>) -> bool {
    forall|i: int|
        0 <= i < rows.len() && (#[trigger] rows[i]).1.status == "pending"@
            ==> rows[i].1.user_id.len() > 0 && rows[i].1.amount > 0
}

/// What an audit of payouts expects to be kept back is what the pending ones ask for.
pub proof fn lemma_payouts_expected(a: Audit, rows: Rows<PayoutState>)
    requires
        payouts_are_valid(rows),
        a.payout_held.len() == 0,
        forall|user: Seq<char>| #[trigger] total(rows, payout_backing(user)) <= i64::MAX,
    ensures
        forall|user: Seq<char>|
            #[trigger] amount_in(payouts_replayed(a, found(rows)).payout_held, user) == total(
                rows,
                payout_backing(user),
            ) && total(rows, payout_backing(user)) >= 0,
        payouts_replayed(a, found(rows)).findings == a.findings,
    decreases rows.len(),
{
    if rows.len() > 0 {
        let front = rows.drop_last();
        let (id, payout) = rows.last();
        assert(payout == rows[rows.len() - 1].1);
        assert forall|i: int|
            0 <= i < front.len() && (#[trigger] front[i]).1.status == "pending"@ implies front[i].1.user_id.len()
            > 0 && front[i].1.amount > 0 by {
            assert(front[i] == rows[i]);
        }
        assert(found(rows).drop_last() =~= found(front));
        assert(found(rows).last() == (id, Some(payout)));
        assert forall|user: Seq<char>| #[trigger] total(front, payout_backing(user)) <= i64::MAX by {
            assert(total(rows, payout_backing(user)) <= i64::MAX);
        }
        lemma_payouts_expected(a, front);
        let before = payouts_replayed(a, found(front));
        let after = payouts_replayed(a, found(rows));
        let owner = payout.user_id;
        assert(total(rows, payout_backing(owner)) <= i64::MAX);
        assert(amount_in(before.payout_held, owner) == total(front, payout_backing(owner)));
        assert forall|user: Seq<char>|
            #[trigger] amount_in(after.payout_held, user) == total(rows, payout_backing(user))
                && total(rows, payout_backing(user)) >= 0 by {
            assert(amount_in(before.payout_held, user) == total(front, payout_backing(user)));
        }
    } else {
        assert(found(rows) =~= Seq::empty());
    }
}

/// Where payouts are backed, a reconciliation finds no fault with them or with what wallets
/// keep back for them. `a` is the audit before it comes to the payouts.
pub proof fn law_backed_payouts_show_no_fault(books: Books, a: Audit)
    requires
        payouts_are_backed(books),
        payouts_are_valid(books.payouts),
        distinct(books.wallets),
        a.payout_held.len() == 0,
    ensures
        ({
            let replayed = payouts_replayed(a, found(books.payouts));
            &&& replayed.findings == a.findings
            &&& counters_compared(
                replayed,
                replayed.payout_held,
                counters_of(books.wallets, payout_held()),
                Counter::PayoutHeld,
            ) == replayed
        }),
{
    assert forall|user: Seq<char>|
        #[trigger] total(books.payouts, payout_backing(user)) <= i64::MAX by {
        assert(wallet_of(books.wallets, user).payout_held == total(
            books.payouts,
            payout_backing(user),
        ));
    }
    lemma_payouts_expected(a, books.payouts);
    let replayed = payouts_replayed(a, found(books.payouts));
    assert forall|i: int| 0 <= i < books.wallets.len() implies payout_held()(
        (#[trigger] books.wallets[i]).1,
    ) >= 0 by {
        let user = books.wallets[i].0;
        lemma_lookup_row(books.wallets, i);
        assert(wallet_of(books.wallets, user).payout_held == total(
            books.payouts,
            payout_backing(user),
        ));
        assert(amount_in(replayed.payout_held, user) == total(
            books.payouts,
            payout_backing(user),
        ));
    }
    lemma_counters_read(replayed, books.wallets, payout_held(), Counter::PayoutHeld);
    let actual = counters_read(
        replayed,
        counters_of(books.wallets, payout_held()),
        Counter::PayoutHeld,
    ).1;
    assert forall|user: Seq<char>|
        #[trigger] amount_in(actual, user) == amount_in(replayed.payout_held, user) by {
        assert(wallet_of(books.wallets, user).payout_held == total(
            books.payouts,
            payout_backing(user),
        ));
        assert(amount_in(replayed.payout_held, user) == total(
            books.payouts,
            payout_backing(user),
        ));
    }
    lemma_no_mismatch(
        replayed,
        ascending_once(keys_of(replayed.payout_held) + keys_of(actual)),
        replayed.payout_held,
        actual,
        Counter::PayoutHeld,
    );
}

} // verus!
