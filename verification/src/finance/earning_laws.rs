//! What users earned is what the settlement lines and the live credits paid them.
use vstd::prelude::*;

use crate::finance::holds::{
    hold_created, hold_released, hold_settled, hold_started, CreateHoldInput, HoldAnswer,
    HoldFacts, ReleaseHoldInput, SettleHoldInput, StartHoldInput,
};
use crate::finance::ids::is_finance_id;
use crate::finance::ledger::{
    lines_of, wallet_of, Books, HoldState, Line, LiveDebitState, ReservationState, Wallet,
};
use crate::finance::pool_runs::{
    authorized_plan, more_credits, pool_debited, slice_settled, DebitAnswer, DebitPoolInput,
    SettlePoolInput, SliceAnswer,
};
use crate::finance::reconcile::credit_user;
use crate::finance::settlement::{
    all_credited, amount_in, cap_key, caps_of, law_a_tally_adds_up, lemma_rows_positive, tally_of,
    Rules,
};
use crate::table::{law_lookup_after_store, law_total_after_store, lookup, stored, total, Rows};
use crate::text::{first_from, lemma_first_from, occurs_at};

verus! {

broadcast use law_lookup_after_store;

/// What lines pay to a user.
pub open spec fn paid_to(lines: Seq<Line>, user: Seq<char>) -> int
    decreases lines.len(),
{
    if lines.len() == 0 {
        0
    } else {
        paid_to(lines.drop_last(), user) + if lines.last().user_id == user {
            lines.last().amount
        } else {
            0
        }
    }
}

/// The amount of a row under a user's name.
pub open spec fn named(user: Seq<char>) -> spec_fn(Seq<char>, i64) -> int {
    |key: Seq<char>, amount: i64|
        if key == user {
            amount as int
        } else {
            0
        }
}

/// The amount of a live credit of a user, whatever the role.
pub open spec fn credit_of(user: Seq<char>) -> spec_fn(Seq<char>, i64) -> int {
    |key: Seq<char>, amount: i64|
        if credit_user(key) == user {
            amount as int
        } else {
            0
        }
}

/// What a user earned from a hold.
pub open spec fn hold_earning(user: Seq<char>) -> spec_fn(Seq<char>, HoldState) -> int {
    |id: Seq<char>, hold: HoldState|
        if hold.status == "settled"@ {
            paid_to(hold.settlement_lines, user)
        } else {
            0
        }
}

/// What a user earned from a run that a slice of a pool was reserved for.
pub open spec fn run_earning(user: Seq<char>) -> spec_fn(Seq<char>, ReservationState) -> int {
    |id: Seq<char>, run: ReservationState|
        if run.status == "settled"@ {
            paid_to(run.settlement_lines, user)
        } else {
            0
        }
}

/// What a user earned while a run went on.
pub open spec fn live_earning(user: Seq<char>) -> spec_fn(Seq<char>, LiveDebitState) -> int {
    |id: Seq<char>, debit: LiveDebitState| total(debit.credits, credit_of(user))
}

/// What the records of the books say that a user earned.
pub open spec fn earning(books: Books, user: Seq<char>) -> int {
    total(books.holds, hold_earning(user)) + total(books.reservations, run_earning(user)) + total(
        books.live_debits,
        live_earning(user),
    )
}

/// Whether what every wallet says it earned is exactly what the records say.
pub open spec fn earnings_are_recorded(books: Books) -> bool {
    forall|user: Seq<char>|
        (#[trigger] wallet_of(books.wallets, user)).earned == earning(books, user)
}

// ---------------------------------------------------------------- tallies

/// The user of a credit key is the user that it was made for.
proof fn lemma_credit_user(user: Seq<char>, role: Seq<char>)
    requires
        is_finance_id(user),
    ensures
        credit_user(cap_key(user, role)) == user,
{
    let key = cap_key(user, role);
    reveal_strlit("|");
    assert("|"@.len() == 1 && "|"@[0] == '|');
    lemma_first_from(key, "|"@, 0);
    assert(key.subrange(user.len() as int, user.len() as int + 1) =~= "|"@);
    assert(occurs_at(key, "|"@, user.len() as int));
    let i = first_from(key, "|"@, 0)->0;
    assert(occurs_at(key, "|"@, i));
    assert(key.subrange(i, i + 1)[0] == key[i]);
    if i < user.len() {
        assert(key[i] == user[i]);
    }
    assert(key.subrange(0, user.len() as int) =~= user);
}

/// A tally names every user and every role of a user with what the lines pay.
proof fn lemma_tally_pays(
    lines: Seq<Line>,
    caps: Rows<i64>,
    payer: Seq<char>,
    rules: Rules,
    user: Seq<char>,
)
    requires
        tally_of(lines, caps, payer, rules) is Ok,
    ensures
        total(tally_of(lines, caps, payer, rules)->Ok_0.users, named(user)) == paid_to(lines, user),
        total(tally_of(lines, caps, payer, rules)->Ok_0.roles, credit_of(user)) == paid_to(
            lines,
            user,
        ),
    decreases lines.len(),
{
    if lines.len() > 0 {
        let front = lines.drop_last();
        let line = lines.last();
        lemma_tally_pays(front, caps, payer, rules, user);
        law_a_tally_adds_up(front, caps, payer, rules);
        let before = tally_of(front, caps, payer, rules)->Ok_0;
        let key = cap_key(line.user_id, line.role);
        lemma_credit_user(line.user_id, line.role);
        law_total_after_store(
            before.users,
            line.user_id,
            (amount_in(before.users, line.user_id) + line.amount) as i64,
            named(user),
        );
        law_total_after_store(
            before.roles,
            key,
            (amount_in(before.roles, key) + line.amount) as i64,
            credit_of(user),
        );
    }
}

/// Credits add what they name to what each wallet earned.
proof fn lemma_credits_earn(
    wallets: Rows<Wallet>,
    users: Rows<i64>,
    missing: Seq<char>,
    after: Rows<Wallet>,
    user: Seq<char>,
)
    requires
        all_credited(wallets, users, missing) == Ok::<Rows<Wallet>, Seq<char>>(after),
        forall|i: int| 0 <= i < users.len() ==> (#[trigger] users[i]).1 > 0,
    ensures
        wallet_of(after, user).earned == wallet_of(wallets, user).earned + total(
            users,
            named(user),
        ),
    decreases users.len(),
{
    if users.len() > 0 {
        let front = users.drop_last();
        assert(users.last() == users[users.len() - 1]);
        assert forall|i: int| 0 <= i < front.len() implies (#[trigger] front[i]).1 > 0 by {
            assert(front[i] == users[i]);
        }
        let before = all_credited(wallets, front, missing)->Ok_0;
        lemma_credits_earn(wallets, front, missing, before, user);
    }
}

/// More credits add what the roles name to what a user was credited.
proof fn lemma_more_credits(
    credits: Rows<i64>,
    roles: Rows<i64>,
    after: Rows<i64>,
    user: Seq<char>,
)
    requires
        more_credits(credits, roles) == Ok::<Rows<i64>, Seq<char>>(after),
        forall|i: int| 0 <= i < roles.len() ==> (#[trigger] roles[i]).1 > 0,
    ensures
        total(after, credit_of(user)) == total(credits, credit_of(user)) + total(
            roles,
            credit_of(user),
        ),
    decreases roles.len(),
{
    if roles.len() > 0 {
        let front = roles.drop_last();
        let (key, amount) = roles.last();
        assert(roles.last() == roles[roles.len() - 1]);
        assert forall|i: int| 0 <= i < front.len() implies (#[trigger] front[i]).1 > 0 by {
            assert(front[i] == roles[i]);
        }
        let before = more_credits(credits, front)->Ok_0;
        lemma_more_credits(credits, front, before, user);
        law_total_after_store(
            before,
            key,
            (amount_in(before, key) + amount) as i64,
            credit_of(user),
        );
    }
}

// ---------------------------------------------------------------- laws

/// Settling a hold records what its beneficiaries earned.
pub proof fn law_settling_a_hold_records_its_earnings(
    books: Books,
    authority: Seq<char>,
    input: SettleHoldInput,
    now: i64,
    journal_id: Seq<char>,
    after: Books,
    answer: HoldAnswer,
)
    requires
        hold_settled(books, authority, input, now, journal_id) == Ok::<
            (Books, HoldAnswer),
            Seq<char>,
        >((after, answer)),
        earnings_are_recorded(books),
    ensures
        earnings_are_recorded(after),
{
    if answer.applied {
        lemma_statuses();
        let payer = input.payer_user_id@;
        let hold = lookup(books.holds, input.hold_id@)->0;
        let lines = lines_of(input.lines@);
        let caps = caps_of(hold.beneficiaries->0);
        let tally = tally_of(lines, caps, payer, Rules::Hold)->Ok_0;
        law_a_tally_adds_up(lines, caps, payer, Rules::Hold);
        lemma_rows_positive(tally.users, tally.sum);
        let spender = crate::finance::holds::charged(
            wallet_of(books.wallets, payer),
            tally.sum,
        )->Ok_0;
        let start = stored(books.wallets, payer, spender);
        let paid = all_credited(start, tally.users, Rules::Hold.missing())->Ok_0;
        assert forall|user: Seq<char>|
            (#[trigger] wallet_of(after.wallets, user)).earned == earning(after, user) by {
            assert(wallet_of(books.wallets, user).earned == earning(books, user));
            lemma_tally_pays(lines, caps, payer, Rules::Hold, user);
            lemma_credits_earn(start, tally.users, Rules::Hold.missing(), paid, user);
            assert(wallet_of(start, user).earned == wallet_of(books.wallets, user).earned);
            assert(wallet_of(after.wallets, user).earned == wallet_of(paid, user).earned);
            law_total_after_store(books.holds, input.hold_id@, answer.hold, hold_earning(user));
        }
    }
}

proof fn lemma_statuses()
    ensures
        "running"@ != "settled"@,
        "reserved"@ != "settled"@,
        "released"@ != "settled"@,
        "expired"@ != "settled"@,
        "open"@ != "settled"@,
{
    reveal_strlit("running");
    reveal_strlit("reserved");
    reveal_strlit("released");
    reveal_strlit("expired");
    reveal_strlit("open");
    reveal_strlit("settled");
    assert("settled"@[0] == 's');
    assert("running"@[0] == 'r');
    assert("reserved"@[0] == 'r');
    assert("released"@[0] == 'r');
    assert("expired"@[0] == 'e');
    assert("open"@[0] == 'o');
}

/// Settling a slice of a pool records what the beneficiaries of its run earned.
pub proof fn law_settling_a_slice_records_its_earnings(
    books: Books,
    authority: Seq<char>,
    input: SettlePoolInput,
    now: i64,
    journal_id: Seq<char>,
    after: Books,
    answer: SliceAnswer,
)
    requires
        slice_settled(books, authority, input, now, journal_id) == Ok::<
            (Books, SliceAnswer),
            Seq<char>,
        >((after, answer)),
        earnings_are_recorded(books),
    ensures
        earnings_are_recorded(after),
{
    if answer is Settled {
        lemma_statuses();
        let payer = input.payer_user_id@;
        let caps = authorized_plan(
            books.quotes,
            input.quote_id@,
            payer,
            "quote payer does not match settlement"@,
            true,
        )->Ok_0;
        let lines = lines_of(input.lines@);
        let tally = tally_of(lines, caps, payer, Rules::Reservation)->Ok_0;
        law_a_tally_adds_up(lines, caps, payer, Rules::Reservation);
        lemma_rows_positive(tally.users, tally.sum);
        let missing = Rules::Reservation.missing();
        let paid = all_credited(books.wallets, tally.users, missing)->Ok_0;
        let settled = lookup(after.reservations, input.run_id@)->0;
        assert forall|user: Seq<char>|
            (#[trigger] wallet_of(after.wallets, user)).earned == earning(after, user) by {
            assert(wallet_of(books.wallets, user).earned == earning(books, user));
            lemma_tally_pays(lines, caps, payer, Rules::Reservation, user);
            lemma_credits_earn(books.wallets, tally.users, missing, paid, user);
            assert(wallet_of(after.wallets, user).earned == wallet_of(paid, user).earned);
            law_total_after_store(books.reservations, input.run_id@, settled, run_earning(user));
        }
    }
}

/// A live debit records what its beneficiaries earned.
pub proof fn law_a_debit_records_its_earnings(
    books: Books,
    authority: Seq<char>,
    input: DebitPoolInput,
    now: i64,
    journal_id: Seq<char>,
    after: Books,
    answer: DebitAnswer,
)
    requires
        pool_debited(books, authority, input, now, journal_id) == Ok::<
            (Books, DebitAnswer),
            Seq<char>,
        >((after, answer)),
        earnings_are_recorded(books),
    ensures
        earnings_are_recorded(after),
{
    if answer is Charged {
        let payer = input.payer_user_id@;
        let caps = authorized_plan(
            books.quotes,
            input.quote_id@,
            payer,
            "quote payer does not match debit"@,
            false,
        )->Ok_0;
        let lines = lines_of(input.lines@);
        let tally = tally_of(lines, caps, payer, Rules::Debit)->Ok_0;
        law_a_tally_adds_up(lines, caps, payer, Rules::Debit);
        lemma_rows_positive(tally.users, tally.sum);
        lemma_rows_positive(tally.roles, tally.sum);
        let missing = Rules::Debit.missing();
        let paid = all_credited(books.wallets, tally.users, missing)->Ok_0;
        let recorded = lookup(after.live_debits, input.run_id@)->0;
        let earlier = match lookup(books.live_debits, input.run_id@) {
            Some(record) => record.credits,
            None => Seq::empty(),
        };
        assert forall|user: Seq<char>|
            (#[trigger] wallet_of(after.wallets, user)).earned == earning(after, user) by {
            assert(wallet_of(books.wallets, user).earned == earning(books, user));
            lemma_tally_pays(lines, caps, payer, Rules::Debit, user);
            lemma_credits_earn(books.wallets, tally.users, missing, paid, user);
            assert(wallet_of(after.wallets, user).earned == wallet_of(paid, user).earned);
            lemma_more_credits(earlier, tally.roles, recorded.credits, user);
            law_total_after_store(books.live_debits, input.run_id@, recorded, live_earning(user));
        }
    }
}

/// Nobody earns anything by a hold that is opened, started or released.
pub proof fn law_a_hold_alone_earns_nothing(
    books: Books,
    caller: Seq<char>,
    input: CreateHoldInput,
    facts: HoldFacts,
    start: StartHoldInput,
    release: ReleaseHoldInput,
    now: i64,
    hold_id: Seq<char>,
    journal_id: Seq<char>,
)
    requires
        earnings_are_recorded(books),
        lookup(books.holds, hold_id) is None,
    ensures
        hold_created(books, caller, input, facts, now, hold_id, journal_id) matches Ok((after, _))
            ==> earnings_are_recorded(after),
        hold_started(books, caller, start, now, journal_id) matches Ok((after, _))
            ==> earnings_are_recorded(after),
        hold_released(books, caller, release, now, journal_id) matches Ok((after, _))
            ==> earnings_are_recorded(after),
{
    lemma_statuses();
    if let Ok((after, answer)) = hold_created(
        books,
        caller,
        input,
        facts,
        now,
        hold_id,
        journal_id,
    ) {
        lemma_no_earning(books, after, hold_id, answer.hold);
    }
    if let Ok((after, answer)) = hold_started(books, caller, start, now, journal_id) {
        lemma_no_earning(books, after, start.hold_id@, answer.hold);
    }
    if let Ok((after, answer)) = hold_released(books, caller, release, now, journal_id) {
        lemma_no_earning(books, after, release.hold_id@, answer.hold);
    }
}

proof fn lemma_no_earning(books: Books, after: Books, id: Seq<char>, hold: HoldState)
    requires
        earnings_are_recorded(books),
        after == books || {
            &&& after.holds == stored(books.holds, id, hold)
            &&& hold.status != "settled"@
            &&& lookup(books.holds, id) matches Some(was) ==> was.status != "settled"@
            &&& after.reservations == books.reservations
            &&& after.live_debits == books.live_debits
            &&& forall|user: Seq<char>|
                (#[trigger] wallet_of(after.wallets, user)).earned == wallet_of(
                    books.wallets,
                    user,
                ).earned
        },
    ensures
        earnings_are_recorded(after),
{
    assert forall|user: Seq<char>|
        (#[trigger] wallet_of(after.wallets, user)).earned == earning(after, user) by {
        assert(wallet_of(books.wallets, user).earned == earning(books, user));
        law_total_after_store(books.holds, id, hold, hold_earning(user));
    }
}

} // verus!
