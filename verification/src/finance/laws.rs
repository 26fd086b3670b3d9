//! What every finance action keeps: money is conserved, held funds are backed by records,
//! pools stay in balance, and a repeated request changes nothing.
use vstd::prelude::*;

use crate::finance::accounts::is_active;
use crate::finance::holds::{
    charged, hold_created, hold_quote_refusal, hold_released, hold_request_marker,
    hold_request_refusal, hold_settled, hold_started, release_marker, run_marker,
    settlement_marker, signed_hash, CreateHoldInput, HoldAnswer, HoldFacts, ReleaseHoldInput, SettleHoldInput,
    StartHoldInput,
};
use crate::finance::ledger::{
    indexed, journal_index_key, lines_of, link_of, wallet_of, Books, HoldState, LiveDebitState, PayoutState, PoolState,
    ReservationState, Wallet,
};
use crate::finance::moves::{
    assets, given_back, is_covered, law_giving_back_undoes_setting_aside,
    law_setting_aside_is_covered, set_aside,
};
use crate::finance::payouts::{
    adjusted, payment_adjusted, payout_decided, payout_requested, payout_resolved,
    payout_set_aside, AdjustmentAnswer, PaymentAdjustmentInput, PayoutAnswer, RequestPayoutInput,
    ResolvePayoutInput,
};
use crate::finance::pool_runs::{
    drained, paid_from_pool, pool_debited, slice_released, slice_reserved, slice_settled,
    DebitAnswer, DebitPoolInput, ReleaseAnswer, ReleasePoolInput, ReservationAnswer,
    ReservePoolInput, SettlePoolInput, SliceAnswer,
};
use crate::finance::pools::{
    is_balanced, pool_closed, pool_opened, pool_refreshed, ClosePoolInput, OpenPoolInput,
    PoolAnswer, RefreshPoolInput,
};
use crate::finance::settlement::{
    adds_up, all_credited, caps_of, credited, law_a_tally_adds_up, lemma_rows_positive,
    plain_amount, tally_of, Rules,
};
use crate::table::{law_lookup_after_store, law_total_after_store, lookup, stored, total, Rows};
use crate::text::{cut, first_from, holds_text, lemma_first_from, occurs_at};

verus! {

broadcast use law_lookup_after_store;

// ---------------------------------------------------------------- what is kept

/// What one wallet owns, as a figure of the wallet table.
pub open spec fn owned() -> spec_fn(Seq<char>, Wallet) -> int {
    |user: Seq<char>, w: Wallet| assets(w)
}

/// What all wallets own together.
pub open spec fn money(books: Books) -> int {
    total(books.wallets, owned())
}

/// What a hold sets aside for a user.
pub open spec fn hold_backing(user: Seq<char>) -> spec_fn(Seq<char>, HoldState) -> int {
    |id: Seq<char>, hold: HoldState|
        if is_active(hold) && hold.payer_user_id == user {
            hold.max_amount
        } else {
            0
        }
}

/// What a pool sets aside for a user.
pub open spec fn pool_backing(user: Seq<char>) -> spec_fn(Seq<char>, PoolState) -> int {
    |id: Seq<char>, pool: PoolState|
        if pool.status == "open"@ && pool.payer_user_id == user {
            pool.remaining + pool.reserved
        } else {
            0
        }
}

/// What the active holds and open pools of a user set aside together.
pub open spec fn backing(books: Books, user: Seq<char>) -> int {
    total(books.holds, hold_backing(user)) + total(books.pools, pool_backing(user))
}

/// Whether every user's held funds are exactly what their active holds and open pools set
/// aside.
pub open spec fn is_backed(books: Books) -> bool {
    forall|user: Seq<char>|
        (#[trigger] wallet_of(books.wallets, user)).held == backing(books, user)
}

/// Whether no user may withdraw more than is available.
pub open spec fn all_covered(wallets: Rows<Wallet>) -> bool {
    forall|user: Seq<char>| is_covered(#[trigger] wallet_of(wallets, user))
}

/// Whether the amounts of every pool add up.
pub open spec fn all_balanced(books: Books) -> bool {
    forall|id: Seq<char>|
        #![trigger lookup(books.pools, id)]
        lookup(books.pools, id) matches Some(pool) ==> is_balanced(pool)
}

// ---------------------------------------------------------------- credits

/// Credits change no held funds, no payouts and no spending; they keep every wallet
/// covered; and what the wallets own grows by exactly what was credited.
proof fn lemma_credits(
    wallets: Rows<Wallet>,
    users: Rows<i64>,
    missing: Seq<char>,
    after: Rows<Wallet>,
)
    requires
        all_credited(wallets, users, missing) == Ok::<Rows<Wallet>, Seq<char>>(after),
        forall|i: int| 0 <= i < users.len() ==> (#[trigger] users[i]).1 > 0,
    ensures
        total(after, owned()) == total(wallets, owned()) + total(users, plain_amount()),
        forall|user: Seq<char>|
            {
                let was = wallet_of(wallets, user);
                let is = #[trigger] wallet_of(after, user);
                &&& is.held == was.held
                &&& is.spent == was.spent
                &&& is.payout_held == was.payout_held
                &&& is.balance is Some == was.balance is Some
                &&& is_covered(was) ==> is_covered(is)
            },
    decreases users.len(),
{
    if users.len() > 0 {
        let front = users.drop_last();
        let before = all_credited(wallets, front, missing)->Ok_0;
        assert forall|i: int| 0 <= i < front.len() implies (#[trigger] front[i]).1 > 0 by {
            assert(front[i] == users[i]);
        }
        lemma_credits(wallets, front, missing, before);
        let (user, amount) = users.last();
        let w = credited(wallet_of(before, user), amount as int, missing)->Ok_0;
        law_total_after_store(before, user, w, owned());
        assert forall|other: Seq<char>|
            {
                let was = wallet_of(wallets, other);
                let is = #[trigger] wallet_of(after, other);
                &&& is.held == was.held
                &&& is.spent == was.spent
                &&& is.payout_held == was.payout_held
                &&& is.balance is Some == was.balance is Some
                &&& is_covered(was) ==> is_covered(is)
            } by {
            let middle = wallet_of(before, other);
            assert(middle.held == wallet_of(wallets, other).held);
        }
    }
}

/// Storing a covered wallet keeps all wallets covered.
proof fn lemma_still_covered(wallets: Rows<Wallet>, user: Seq<char>, w: Wallet)
    requires
        all_covered(wallets),
        is_covered(w),
    ensures
        all_covered(stored(wallets, user, w)),
{
    assert forall|other: Seq<char>| is_covered(
        #[trigger] wallet_of(stored(wallets, user, w), other),
    ) by {
        assert(is_covered(wallet_of(wallets, other)));
    }
}

// ---------------------------------------------------------------- index links

/// A key outside the journal index is not touched by indexing.
proof fn lemma_indexing_keeps(
    links: Rows<Seq<char>>,
    participants: Seq<Seq<char>>,
    now: int,
    id: Seq<char>,
    key: Seq<char>,
)
    requires
        key.len() > 7,
        key[7] != 'J',
    ensures
        link_of(indexed(links, participants, now, id), key) == link_of(links, key),
    decreases participants.len(),
{
    if participants.len() > 0 {
        lemma_indexing_keeps(links, participants.drop_last(), now, id, key);
        let index = journal_index_key(participants.last(), now, id);
        reveal_strlit("FinanceJournalByUser::");
        assert(index[7] == 'J');
    }
}

// ---------------------------------------------------------------- holds

/// Opening a hold conserves money, keeps every wallet covered, and keeps held funds backed
/// where its identifier is new.
pub proof fn law_creating_a_hold_keeps_the_books(
    books: Books,
    payer: Seq<char>,
    input: CreateHoldInput,
    facts: HoldFacts,
    now: i64,
    hold_id: Seq<char>,
    journal_id: Seq<char>,
    after: Books,
    answer: HoldAnswer,
)
    requires
        hold_created(books, payer, input, facts, now, hold_id, journal_id) == Ok::<
            (Books, HoldAnswer),
            Seq<char>,
        >((after, answer)),
    ensures
        money(after) == money(books),
        all_covered(books.wallets) ==> all_covered(after.wallets),
        is_backed(books) && lookup(books.holds, hold_id) is None ==> is_backed(after),
        after.pools == books.pools,
{
    if answer.applied {
        let w = wallet_of(books.wallets, payer);
        let amount = input.max_amount as int;
        let (next, part) = set_aside(w, amount, crate::finance::holds::hold_insufficient())->Ok_0;
        law_setting_aside_is_covered(
            w,
            amount,
            crate::finance::holds::hold_insufficient(),
            next,
            part,
        );
        law_total_after_store(books.wallets, payer, next, owned());
        if all_covered(books.wallets) {
            assert(is_covered(w));
            lemma_still_covered(books.wallets, payer, next);
        }
        let hold = answer.hold;
        if is_backed(books) && lookup(books.holds, hold_id) is None {
            assert forall|user: Seq<char>|
                (#[trigger] wallet_of(after.wallets, user)).held == backing(after, user) by {
                assert(wallet_of(books.wallets, user).held == backing(books, user));
                law_total_after_store(books.holds, hold_id, hold, hold_backing(user));
            }
        }
    }
}

/// Starting a hold moves no money and keeps held funds backed.
pub proof fn law_starting_a_hold_keeps_the_books(
    books: Books,
    authority: Seq<char>,
    input: StartHoldInput,
    now: i64,
    journal_id: Seq<char>,
    after: Books,
    answer: HoldAnswer,
)
    requires
        hold_started(books, authority, input, now, journal_id) == Ok::<
            (Books, HoldAnswer),
            Seq<char>,
        >((after, answer)),
    ensures
        after.wallets == books.wallets,
        after.pools == books.pools,
        is_backed(books) ==> is_backed(after),
{
    if answer.applied && is_backed(books) {
        assert forall|user: Seq<char>|
            (#[trigger] wallet_of(after.wallets, user)).held == backing(after, user) by {
            assert(wallet_of(books.wallets, user).held == backing(books, user));
            law_total_after_store(books.holds, input.hold_id@, answer.hold, hold_backing(user));
        }
    }
}

proof fn lemma_status_words()
    ensures
        "settled"@ != "open"@,
        "settled"@ != "running"@,
        "released"@ != "open"@,
        "released"@ != "running"@,
        "expired"@ != "open"@,
        "expired"@ != "running"@,
        "closed"@ != "open"@,
{
    reveal_strlit("settled");
    reveal_strlit("released");
    reveal_strlit("expired");
    reveal_strlit("open");
    reveal_strlit("running");
    reveal_strlit("closed");
    assert("settled"@[0] == 's');
    assert("released"@[1] == 'e');
    assert("expired"@[0] == 'e');
    assert("open"@[0] == 'o');
    assert("running"@[0] == 'r');
    assert("running"@[1] == 'u');
    assert("released"@[0] == 'r');
    assert("closed"@[0] == 'c');
}

/// Settling a hold conserves money: what leaves the payer's held funds is what the
/// beneficiaries earn and what the payer gets back. Every wallet stays covered, and held
/// funds stay backed.
pub proof fn law_settling_a_hold_keeps_the_books(
    books: Books,
    authority: Seq<char>,
    input: SettleHoldInput,
    now: i64,
    journal_id: Seq<char>,
    after: Books,
    answer: HoldAnswer,
)
    requires
        hold_settled(books, authority, input, now, journal_id) == Ok::<
            (Books, HoldAnswer),
            Seq<char>,
        >((after, answer)),
    ensures
        money(after) == money(books),
        all_covered(books.wallets) ==> all_covered(after.wallets),
        is_backed(books) ==> is_backed(after),
        after.pools == books.pools,
        answer.applied ==> answer.hold.actual_amount + answer.hold.refunded_amount
            == answer.hold.max_amount,
{
    if answer.applied {
        lemma_status_words();
        let payer = input.payer_user_id@;
        let hold = lookup(books.holds, input.hold_id@)->0;
        let lines = lines_of(input.lines@);
        let caps = caps_of(hold.beneficiaries->0);
        let tally = tally_of(lines, caps, payer, Rules::Hold)->Ok_0;
        law_a_tally_adds_up(lines, caps, payer, Rules::Hold);
        lemma_rows_positive(tally.users, tally.sum);
        let spender = charged(wallet_of(books.wallets, payer), tally.sum)->Ok_0;
        let start = stored(books.wallets, payer, spender);
        let paid = all_credited(start, tally.users, Rules::Hold.missing())->Ok_0;
        law_total_after_store(books.wallets, payer, spender, owned());
        lemma_credits(start, tally.users, Rules::Hold.missing(), paid);
        let w = wallet_of(paid, payer);
        let back = crate::finance::holds::smaller(
            hold.max_amount - tally.sum,
            hold.withdrawable_amount,
        );
        let refunded = given_back(w, hold.max_amount - tally.sum, back, hold.max_amount)->Ok_0;
        law_total_after_store(paid, payer, refunded, owned());
        assert(after.wallets == stored(paid, payer, refunded));
        if all_covered(books.wallets) {
            assert forall|user: Seq<char>| is_covered(#[trigger] wallet_of(after.wallets, user)) by {
                assert(is_covered(wallet_of(books.wallets, user)));
                assert(is_covered(wallet_of(start, user)));
                assert(is_covered(wallet_of(paid, user)));
            }
        }
        if is_backed(books) {
            assert forall|user: Seq<char>|
                (#[trigger] wallet_of(after.wallets, user)).held == backing(after, user) by {
                assert(wallet_of(books.wallets, user).held == backing(books, user));
                assert(wallet_of(paid, user).held == wallet_of(start, user).held);
                law_total_after_store(books.holds, input.hold_id@, answer.hold, hold_backing(user));
            }
        }
    }
}

/// Releasing a hold conserves money and keeps held funds backed; it keeps every wallet
/// covered where the hold set no more withdrawable funds aside than it holds.
pub proof fn law_releasing_a_hold_keeps_the_books(
    books: Books,
    caller: Seq<char>,
    input: ReleaseHoldInput,
    now: i64,
    journal_id: Seq<char>,
    after: Books,
    answer: HoldAnswer,
)
    requires
        hold_released(books, caller, input, now, journal_id) == Ok::<
            (Books, HoldAnswer),
            Seq<char>,
        >((after, answer)),
    ensures
        money(after) == money(books),
        all_covered(books.wallets) && answer.hold.withdrawable_amount <= answer.hold.max_amount
            ==> all_covered(after.wallets),
        is_backed(books) ==> is_backed(after),
        after.pools == books.pools,
{
    if answer.applied {
        lemma_status_words();
        let payer = input.payer_user_id@;
        let hold = lookup(books.holds, input.hold_id@)->0;
        let w = wallet_of(books.wallets, payer);
        let next = given_back(
            w,
            hold.max_amount,
            hold.withdrawable_amount,
            hold.max_amount,
        )->Ok_0;
        law_total_after_store(books.wallets, payer, next, owned());
        if all_covered(books.wallets) {
            assert(is_covered(w));
            if hold.withdrawable_amount <= hold.max_amount {
                lemma_still_covered(books.wallets, payer, next);
            }
        }
        if is_backed(books) {
            assert forall|user: Seq<char>|
                (#[trigger] wallet_of(after.wallets, user)).held == backing(after, user) by {
                assert(wallet_of(books.wallets, user).held == backing(books, user));
                law_total_after_store(books.holds, input.hold_id@, answer.hold, hold_backing(user));
            }
        }
    }
}

/// A hold that is released before any run started, by whoever may, leaves the payer's wallet
/// as it was before the hold, and no other wallet changes.
pub proof fn law_releasing_undoes_creating(
    books: Books,
    payer: Seq<char>,
    input: CreateHoldInput,
    facts: HoldFacts,
    now: i64,
    hold_id: Seq<char>,
    journal_id: Seq<char>,
    opened: Books,
    answer: HoldAnswer,
    caller: Seq<char>,
    release: ReleaseHoldInput,
    later: i64,
    release_journal: Seq<char>,
    after: Books,
    released: HoldAnswer,
)
    requires
        hold_created(books, payer, input, facts, now, hold_id, journal_id) == Ok::<
            (Books, HoldAnswer),
            Seq<char>,
        >((opened, answer)),
        answer.applied,
        release.hold_id@ == hold_id,
        hold_released(opened, caller, release, later, release_journal) == Ok::<
            (Books, HoldAnswer),
            Seq<char>,
        >((after, released)),
        released.applied,
    ensures
        forall|user: Seq<char>| #[trigger]
            wallet_of(after.wallets, user) == wallet_of(books.wallets, user),
{
    let w = wallet_of(books.wallets, payer);
    let amount = input.max_amount as int;
    let insufficient = crate::finance::holds::hold_insufficient();
    let (next, part) = set_aside(w, amount, insufficient)->Ok_0;
    law_giving_back_undoes_setting_aside(w, amount, insufficient, next, part);
    assert(lookup(opened.holds, hold_id) == Some(answer.hold));
    assert forall|user: Seq<char>| #[trigger]
        wallet_of(after.wallets, user) == wallet_of(books.wallets, user) by {}
}

/// A hold that is released while its run is under way gives back all that was set aside for
/// it: every wallet is as it was before the hold.
pub proof fn law_releasing_a_started_hold_undoes_creating(
    books: Books,
    payer: Seq<char>,
    input: CreateHoldInput,
    facts: HoldFacts,
    now: i64,
    hold_id: Seq<char>,
    journal_id: Seq<char>,
    opened: Books,
    answer: HoldAnswer,
    authority: Seq<char>,
    start: StartHoldInput,
    begun: i64,
    start_journal: Seq<char>,
    running: Books,
    started: HoldAnswer,
    caller: Seq<char>,
    release: ReleaseHoldInput,
    later: i64,
    release_journal: Seq<char>,
    after: Books,
    released: HoldAnswer,
)
    requires
        hold_created(books, payer, input, facts, now, hold_id, journal_id) == Ok::<
            (Books, HoldAnswer),
            Seq<char>,
        >((opened, answer)),
        answer.applied,
        start.hold_id@ == hold_id,
        hold_started(opened, authority, start, begun, start_journal) == Ok::<
            (Books, HoldAnswer),
            Seq<char>,
        >((running, started)),
        started.applied,
        release.hold_id@ == hold_id,
        hold_released(running, caller, release, later, release_journal) == Ok::<
            (Books, HoldAnswer),
            Seq<char>,
        >((after, released)),
        released.applied,
    ensures
        forall|user: Seq<char>| #[trigger]
            wallet_of(after.wallets, user) == wallet_of(books.wallets, user),
{
    let w = wallet_of(books.wallets, payer);
    let amount = input.max_amount as int;
    let insufficient = crate::finance::holds::hold_insufficient();
    let (next, part) = set_aside(w, amount, insufficient)->Ok_0;
    law_giving_back_undoes_setting_aside(w, amount, insufficient, next, part);
    assert(lookup(opened.holds, hold_id) == Some(answer.hold));
    assert(lookup(running.holds, hold_id) == Some(started.hold));
    assert forall|user: Seq<char>| #[trigger]
        wallet_of(after.wallets, user) == wallet_of(books.wallets, user) by {}
}

/// Settling again with the same settlement changes nothing and answers with the same hold.
pub proof fn law_settling_a_hold_twice_is_settling_it_once(
    books: Books,
    authority: Seq<char>,
    input: SettleHoldInput,
    now: i64,
    journal_id: Seq<char>,
    after: Books,
    answer: HoldAnswer,
    later: i64,
    other_journal: Seq<char>,
)
    requires
        hold_settled(books, authority, input, now, journal_id) == Ok::<
            (Books, HoldAnswer),
            Seq<char>,
        >((after, answer)),
    ensures
        hold_settled(after, authority, input, later, other_journal) == Ok::<
            (Books, HoldAnswer),
            Seq<char>,
        >((after, HoldAnswer { applied: false, hold: answer.hold, journal_id: None })),
{
    if answer.applied {
        let marker = settlement_marker(authority, input.settlement_id@);
        reveal_strlit("FinanceSettlement::");
        assert(marker[7] == 'S');
        let payer = input.payer_user_id@;
        let hold = lookup(books.holds, input.hold_id@)->0;
        let tally = tally_of(
            lines_of(input.lines@),
            caps_of(hold.beneficiaries->0),
            payer,
            Rules::Hold,
        )->Ok_0;
        lemma_indexing_keeps(
            stored(books.links, marker, input.hold_id@),
            seq![payer, authority] + crate::finance::settlement::keys_of(tally.users),
            now as int,
            journal_id,
            marker,
        );
    }
}

/// Releasing again with the same release changes nothing and answers with the same hold.
pub proof fn law_releasing_a_hold_twice_is_releasing_it_once(
    books: Books,
    caller: Seq<char>,
    input: ReleaseHoldInput,
    now: i64,
    journal_id: Seq<char>,
    after: Books,
    answer: HoldAnswer,
    later: i64,
    other_journal: Seq<char>,
)
    requires
        hold_released(books, caller, input, now, journal_id) == Ok::<
            (Books, HoldAnswer),
            Seq<char>,
        >((after, answer)),
    ensures
        hold_released(after, caller, input, later, other_journal) == Ok::<
            (Books, HoldAnswer),
            Seq<char>,
        >((after, HoldAnswer { applied: false, hold: answer.hold, journal_id: None })),
{
    if answer.applied {
        let marker = release_marker(caller, input.release_id@);
        reveal_strlit("FinanceRelease::");
        assert(marker[7] == 'R');
        let hold = lookup(books.holds, input.hold_id@)->0;
        lemma_indexing_keeps(
            stored(books.links, marker, input.hold_id@),
            seq![input.payer_user_id@, hold.settlement_authority],
            now as int,
            journal_id,
            marker,
        );
    }
}

/// Starting again with the same run changes nothing and answers with the same hold.
pub proof fn law_starting_a_hold_twice_is_starting_it_once(
    books: Books,
    authority: Seq<char>,
    input: StartHoldInput,
    now: i64,
    journal_id: Seq<char>,
    after: Books,
    answer: HoldAnswer,
    later: i64,
    other_journal: Seq<char>,
)
    requires
        hold_started(books, authority, input, now, journal_id) == Ok::<
            (Books, HoldAnswer),
            Seq<char>,
        >((after, answer)),
    ensures
        hold_started(after, authority, input, later, other_journal) == Ok::<
            (Books, HoldAnswer),
            Seq<char>,
        >((after, HoldAnswer { applied: false, hold: answer.hold, journal_id: None })),
{
    if answer.applied {
        let marker = run_marker(authority, input.run_id@);
        reveal_strlit("FinanceRun::");
        assert(marker[7] == 'R');
        lemma_indexing_keeps(
            stored(books.links, marker, input.hold_id@),
            seq![input.payer_user_id@, authority],
            now as int,
            journal_id,
            marker,
        );
    }
}

/// Cutting a text at the bar that joins a name without one and a rest gives them back.
proof fn lemma_cut_at_bar(name: Seq<char>, rest: Seq<char>)
    requires
        !holds_text(name, "|"@),
    ensures
        cut(name + "|"@ + rest, "|"@) == Some((name, rest)),
{
    reveal_strlit("|");
    let bar = "|"@;
    let whole = name + bar + rest;
    lemma_first_from(name, bar, 0);
    lemma_first_from(whole, bar, 0);
    let at = name.len() as int;
    assert(whole.subrange(at, at + 1) =~= bar);
    assert(occurs_at(whole, bar, at));
    match first_from(whole, bar, 0) {
        None => {},
        Some(i) => {
            if i < at {
                assert(name.subrange(i, i + 1) =~= whole.subrange(i, i + 1));
                assert(occurs_at(name, bar, i));
            }
            assert(whole.subrange(0, at) =~= name);
            assert(whole.subrange(at + 1, whole.len() as int) =~= rest);
        },
    }
}

/// Asking again for the same hold opens no second one: while the request still stands, it
/// is answered with the hold that it opened.
pub proof fn law_a_hold_request_opens_one_hold(
    books: Books,
    payer: Seq<char>,
    input: CreateHoldInput,
    facts: HoldFacts,
    now: i64,
    hold_id: Seq<char>,
    journal_id: Seq<char>,
    after: Books,
    answer: HoldAnswer,
    later: i64,
    other_id: Seq<char>,
    other_journal: Seq<char>,
)
    requires
        !holds_text(hold_id, "|"@),
        hold_created(books, payer, input, facts, now, hold_id, journal_id) == Ok::<
            (Books, HoldAnswer),
            Seq<char>,
        >((after, answer)),
        answer.applied,
        hold_request_refusal(input, later) is None,
        hold_quote_refusal(after, payer, input, facts, later) is None,
    ensures
        hold_created(after, payer, input, facts, later, other_id, other_journal) == Ok::<
            (Books, HoldAnswer),
            Seq<char>,
        >((after, HoldAnswer { applied: false, hold: answer.hold, journal_id: None })),
{
    let marker = hold_request_marker(payer, input.idempotency_key@);
    let hash = signed_hash(input);
    let index = crate::finance::holds::hold_index_key(payer, now as int, hold_id);
    reveal_strlit("FinanceHoldRequest::");
    reveal_strlit("FinanceHoldByPayer::");
    assert(marker[7] == 'H');
    assert(marker[11] == 'R');
    assert(index[11] == 'B');
    let links = stored(
        stored(books.links, marker, hold_id + "|"@ + hash),
        index,
        hold_id,
    );
    lemma_indexing_keeps(
        links,
        seq![payer, input.settlement_authority@] + crate::finance::holds::plan_users(
            crate::finance::ids::beneficiaries_of(input.beneficiaries@),
        ),
        now as int,
        journal_id,
        marker,
    );
    lemma_cut_at_bar(hold_id, hash);
    reveal_strlit("|");
    assert((hold_id + "|"@ + hash).len() > 0);
}

// ---------------------------------------------------------------- pools

/// Opening a pool conserves money, keeps every wallet covered, and puts a balanced pool on
/// the books; it keeps held funds backed where its identifier is new.
pub proof fn law_opening_a_pool_keeps_the_books(
    books: Books,
    payer: Seq<char>,
    input: OpenPoolInput,
    now: i64,
    pool_id: Seq<char>,
    journal_id: Seq<char>,
    after: Books,
    answer: PoolAnswer,
)
    requires
        pool_opened(books, payer, input, now, pool_id, journal_id) == Ok::<
            (Books, PoolAnswer),
            Seq<char>,
        >((after, answer)),
    ensures
        money(after) == money(books),
        all_covered(books.wallets) ==> all_covered(after.wallets),
        all_balanced(books) ==> all_balanced(after),
        is_backed(books) && lookup(books.pools, pool_id) is None ==> is_backed(after),
{
    if let PoolAnswer::Changed { pool, .. } = answer {
        let w = wallet_of(books.wallets, payer);
        let amount = input.max_amount as int;
        let insufficient = "insufficient available balance to open this pool"@;
        let (next, part) = set_aside(w, amount, insufficient)->Ok_0;
        law_setting_aside_is_covered(w, amount, insufficient, next, part);
        law_total_after_store(books.wallets, payer, next, owned());
        if all_covered(books.wallets) {
            assert(is_covered(w));
            lemma_still_covered(books.wallets, payer, next);
        }
        if is_backed(books) && lookup(books.pools, pool_id) is None {
            assert forall|user: Seq<char>|
                (#[trigger] wallet_of(after.wallets, user)).held == backing(after, user) by {
                assert(wallet_of(books.wallets, user).held == backing(books, user));
                law_total_after_store(books.pools, pool_id, pool, pool_backing(user));
            }
        }
    }
}

/// Refreshing a pool conserves money, keeps every wallet covered, keeps pools balanced and
/// held funds backed.
pub proof fn law_refreshing_a_pool_keeps_the_books(
    books: Books,
    payer: Seq<char>,
    input: RefreshPoolInput,
    now: i64,
    journal_id: Seq<char>,
    after: Books,
    answer: PoolAnswer,
)
    requires
        pool_refreshed(books, payer, input, now, journal_id) == Ok::<
            (Books, PoolAnswer),
            Seq<char>,
        >((after, answer)),
    ensures
        money(after) == money(books),
        all_covered(books.wallets) ==> all_covered(after.wallets),
        all_balanced(books) ==> all_balanced(after),
        is_backed(books) ==> is_backed(after),
{
    if let PoolAnswer::Changed { pool, .. } = answer {
        let w = wallet_of(books.wallets, payer);
        let amount = input.amount as int;
        let insufficient = "insufficient available balance to refresh this pool"@;
        let (next, part) = set_aside(w, amount, insufficient)->Ok_0;
        law_setting_aside_is_covered(w, amount, insufficient, next, part);
        law_total_after_store(books.wallets, payer, next, owned());
        if all_covered(books.wallets) {
            assert(is_covered(w));
            lemma_still_covered(books.wallets, payer, next);
        }
        let was = lookup(books.pools, input.pool_id@)->0;
        if all_balanced(books) {
            assert(is_balanced(was));
        }
        if is_backed(books) {
            assert forall|user: Seq<char>|
                (#[trigger] wallet_of(after.wallets, user)).held == backing(after, user) by {
                assert(wallet_of(books.wallets, user).held == backing(books, user));
                law_total_after_store(books.pools, input.pool_id@, pool, pool_backing(user));
            }
        }
    }
}

/// Closing a pool conserves money, keeps every wallet covered and pools balanced; it keeps
/// held funds backed where what remained in the pool was not negative.
pub proof fn law_closing_a_pool_keeps_the_books(
    books: Books,
    caller: Seq<char>,
    input: ClosePoolInput,
    now: i64,
    journal_id: Seq<char>,
    after: Books,
    answer: PoolAnswer,
)
    requires
        pool_closed(books, caller, input, now, journal_id) == Ok::<(Books, PoolAnswer), Seq<char>>(
            (after, answer),
        ),
        lookup(books.pools, input.pool_id@)->0.remaining >= 0,
    ensures
        money(after) == money(books),
        all_covered(books.wallets) ==> all_covered(after.wallets),
        all_balanced(books) ==> all_balanced(after),
        is_backed(books) ==> is_backed(after),
{
    if let PoolAnswer::Changed { pool, .. } = answer {
        lemma_status_words();
        let was = lookup(books.pools, input.pool_id@)->0;
        let payer = was.payer_user_id;
        let back = crate::finance::holds::smaller(was.remaining, was.withdrawable_amount);
        let w = wallet_of(books.wallets, payer);
        if was.remaining > 0 {
            let next = given_back(w, was.remaining, back, was.remaining)->Ok_0;
            law_total_after_store(books.wallets, payer, next, owned());
            if all_covered(books.wallets) {
                assert(is_covered(w));
                lemma_still_covered(books.wallets, payer, next);
            }
        }
        if all_balanced(books) {
            assert(is_balanced(was));
        }
        if is_backed(books) {
            assert forall|user: Seq<char>|
                (#[trigger] wallet_of(after.wallets, user)).held == backing(after, user) by {
                assert(wallet_of(books.wallets, user).held == backing(books, user));
                law_total_after_store(books.pools, input.pool_id@, pool, pool_backing(user));
            }
        }
    }
}

/// Reserving a slice moves no money, keeps pools balanced and held funds backed.
pub proof fn law_reserving_a_slice_keeps_the_books(
    books: Books,
    authority: Seq<char>,
    input: ReservePoolInput,
    now: i64,
    journal_id: Seq<char>,
    after: Books,
    answer: ReservationAnswer,
)
    requires
        slice_reserved(books, authority, input, now, journal_id) == Ok::<
            (Books, ReservationAnswer),
            Seq<char>,
        >((after, answer)),
    ensures
        after.wallets == books.wallets,
        all_balanced(books) ==> all_balanced(after),
        is_backed(books) ==> is_backed(after),
{
    if answer is Changed {
        let was = lookup(books.pools, input.pool_id@)->0;
        let pool = lookup(after.pools, input.pool_id@)->0;
        if all_balanced(books) {
            assert(is_balanced(was));
        }
        if is_backed(books) {
            assert forall|user: Seq<char>|
                (#[trigger] wallet_of(after.wallets, user)).held == backing(after, user) by {
                assert(wallet_of(books.wallets, user).held == backing(books, user));
                law_total_after_store(books.pools, input.pool_id@, pool, pool_backing(user));
            }
        }
    }
}

/// Releasing a slice moves no money, keeps pools balanced and held funds backed.
pub proof fn law_releasing_a_slice_keeps_the_books(
    books: Books,
    caller: Seq<char>,
    input: ReleasePoolInput,
    now: i64,
    journal_id: Seq<char>,
    after: Books,
    answer: ReleaseAnswer,
)
    requires
        slice_released(books, caller, input, now, journal_id) == Ok::<
            (Books, ReleaseAnswer),
            Seq<char>,
        >((after, answer)),
    ensures
        after.wallets == books.wallets,
        all_balanced(books) ==> all_balanced(after),
        is_backed(books) ==> is_backed(after),
{
    if answer is Released {
        let was = lookup(books.pools, input.pool_id@)->0;
        let pool = lookup(after.pools, input.pool_id@)->0;
        if all_balanced(books) {
            assert(is_balanced(was));
        }
        if is_backed(books) {
            assert forall|user: Seq<char>|
                (#[trigger] wallet_of(after.wallets, user)).held == backing(after, user) by {
                assert(wallet_of(books.wallets, user).held == backing(books, user));
                law_total_after_store(books.pools, input.pool_id@, pool, pool_backing(user));
            }
        }
    }
}

/// Paying users out of a pool conserves money, keeps wallets covered, and takes exactly
/// the sum out of the payer's held funds.
proof fn lemma_pool_payment(
    wallets: Rows<Wallet>,
    payer: Seq<char>,
    users: Rows<i64>,
    sum: int,
    missing: Seq<char>,
    after: Rows<Wallet>,
)
    requires
        paid_from_pool(wallets, payer, users, sum, missing) == Ok::<Rows<Wallet>, Seq<char>>(after),
        adds_up(users, sum),
        sum >= 0,
    ensures
        total(after, owned()) == total(wallets, owned()),
        all_covered(wallets) ==> all_covered(after),
        forall|user: Seq<char>|
            (#[trigger] wallet_of(after, user)).held == wallet_of(wallets, user).held - if user
                == payer {
                sum
            } else {
                0
            },
{
    lemma_rows_positive(users, sum);
    let paid = all_credited(wallets, users, missing)->Ok_0;
    lemma_credits(wallets, users, missing, paid);
    if sum > 0 {
        let w = drained(wallet_of(paid, payer), sum)->Ok_0;
        law_total_after_store(paid, payer, w, owned());
    }
    assert forall|user: Seq<char>|
        (#[trigger] wallet_of(after, user)).held == wallet_of(wallets, user).held - if user == payer {
            sum
        } else {
            0
        } by {
        assert(wallet_of(paid, user).held == wallet_of(wallets, user).held);
    }
    if all_covered(wallets) {
        assert forall|user: Seq<char>| is_covered(#[trigger] wallet_of(after, user)) by {
            assert(is_covered(wallet_of(wallets, user)));
            assert(is_covered(wallet_of(paid, user)));
        }
    }
}

/// Settling a slice conserves money, keeps every wallet covered and pools balanced; it
/// keeps held funds backed where the pool belongs to the payer that the reservation names.
pub proof fn law_settling_a_slice_keeps_the_books(
    books: Books,
    authority: Seq<char>,
    input: SettlePoolInput,
    now: i64,
    journal_id: Seq<char>,
    after: Books,
    answer: SliceAnswer,
)
    requires
        slice_settled(books, authority, input, now, journal_id) == Ok::<
            (Books, SliceAnswer),
            Seq<char>,
        >((after, answer)),
    ensures
        money(after) == money(books),
        all_covered(books.wallets) ==> all_covered(after.wallets),
        all_balanced(books) ==> all_balanced(after),
        is_backed(books) && lookup(books.pools, input.pool_id@)->0.payer_user_id
            == input.payer_user_id@ ==> is_backed(after),
{
    if answer is Settled {
        let payer = input.payer_user_id@;
        let was = lookup(books.pools, input.pool_id@)->0;
        let pool = lookup(after.pools, input.pool_id@)->0;
        let caps = crate::finance::pool_runs::authorized_plan(
            books.quotes,
            input.quote_id@,
            payer,
            "quote payer does not match settlement"@,
            true,
        )->Ok_0;
        let lines = lines_of(input.lines@);
        let tally = tally_of(lines, caps, payer, Rules::Reservation)->Ok_0;
        law_a_tally_adds_up(lines, caps, payer, Rules::Reservation);
        lemma_pool_payment(
            books.wallets,
            payer,
            tally.users,
            tally.sum,
            Rules::Reservation.missing(),
            after.wallets,
        );
        if all_balanced(books) {
            assert(is_balanced(was));
        }
        if is_backed(books) && was.payer_user_id == payer {
            assert forall|user: Seq<char>|
                (#[trigger] wallet_of(after.wallets, user)).held == backing(after, user) by {
                assert(wallet_of(books.wallets, user).held == backing(books, user));
                law_total_after_store(books.pools, input.pool_id@, pool, pool_backing(user));
            }
        }
    }
}

/// A live debit conserves money, keeps every wallet covered, pools balanced, and held funds
/// backed. Where the pool cannot cover it, the books do not change at all; otherwise it
/// takes exactly what it charged out of what remained.
pub proof fn law_a_debit_keeps_the_books(
    books: Books,
    authority: Seq<char>,
    input: DebitPoolInput,
    now: i64,
    journal_id: Seq<char>,
    after: Books,
    answer: DebitAnswer,
)
    requires
        pool_debited(books, authority, input, now, journal_id) == Ok::<
            (Books, DebitAnswer),
            Seq<char>,
        >((after, answer)),
    ensures
        money(after) == money(books),
        all_covered(books.wallets) ==> all_covered(after.wallets),
        all_balanced(books) ==> all_balanced(after),
        is_backed(books) ==> is_backed(after),
        !(answer is Charged) ==> after == books,
        answer matches DebitAnswer::Charged { charged, remaining, .. } ==> charged > 0 && remaining
            >= 0 && remaining == lookup(books.pools, input.pool_id@)->0.remaining - charged,
{
    if answer is Charged {
        let payer = input.payer_user_id@;
        let was = lookup(books.pools, input.pool_id@)->0;
        let pool = lookup(after.pools, input.pool_id@)->0;
        let caps = crate::finance::pool_runs::authorized_plan(
            books.quotes,
            input.quote_id@,
            payer,
            "quote payer does not match debit"@,
            false,
        )->Ok_0;
        let lines = lines_of(input.lines@);
        let tally = tally_of(lines, caps, payer, Rules::Debit)->Ok_0;
        law_a_tally_adds_up(lines, caps, payer, Rules::Debit);
        lemma_pool_payment(
            books.wallets,
            payer,
            tally.users,
            tally.sum,
            Rules::Debit.missing(),
            after.wallets,
        );
        if all_balanced(books) {
            assert(is_balanced(was));
        }
        if is_backed(books) {
            assert forall|user: Seq<char>|
                (#[trigger] wallet_of(after.wallets, user)).held == backing(after, user) by {
                assert(wallet_of(books.wallets, user).held == backing(books, user));
                law_total_after_store(books.pools, input.pool_id@, pool, pool_backing(user));
            }
        }
    }
}

/// Debiting again with the same debit charges nothing.
pub proof fn law_debiting_twice_charges_once(
    books: Books,
    authority: Seq<char>,
    input: DebitPoolInput,
    now: i64,
    journal_id: Seq<char>,
    after: Books,
    charged: int,
    remaining: int,
    first_journal: Seq<char>,
    later: i64,
    other_journal: Seq<char>,
)
    requires
        pool_debited(books, authority, input, now, journal_id) == Ok::<
            (Books, DebitAnswer),
            Seq<char>,
        >((after, DebitAnswer::Charged { charged, remaining, journal_id: first_journal })),
    ensures
        pool_debited(after, authority, input, later, other_journal) == Ok::<
            (Books, DebitAnswer),
            Seq<char>,
        >((after, DebitAnswer::Unchanged { remaining })),
{
    let marker = "FinancePoolDebit::"@ + authority + "::"@ + input.debit_id@;
    reveal_strlit("FinancePoolDebit::");
    assert(marker[7] == 'P');
    let payer = input.payer_user_id@;
    let caps = crate::finance::pool_runs::authorized_plan(
        books.quotes,
        input.quote_id@,
        payer,
        "quote payer does not match debit"@,
        false,
    )->Ok_0;
    let tally = tally_of(lines_of(input.lines@), caps, payer, Rules::Debit)->Ok_0;
    lemma_indexing_keeps(
        stored(books.links, marker, input.run_id@),
        seq![payer, authority] + crate::finance::settlement::keys_of(tally.users),
        now as int,
        journal_id,
        marker,
    );
}

/// Requesting a payout conserves money and keeps every wallet covered.
pub proof fn law_requesting_a_payout_keeps_the_books(
    books: Books,
    user: Seq<char>,
    input: RequestPayoutInput,
    now: i64,
    payout_id: Seq<char>,
    journal_id: Seq<char>,
    after: Books,
    answer: PayoutAnswer,
)
    requires
        payout_requested(books, user, input, now, payout_id, journal_id) == Ok::<
            (Books, PayoutAnswer),
            Seq<char>,
        >((after, answer)),
    ensures
        money(after) == money(books),
        all_covered(books.wallets) ==> all_covered(after.wallets),
        is_backed(books) ==> is_backed(after),
{
    if answer.applied {
        let w = wallet_of(books.wallets, user);
        let next = payout_set_aside(w, input.amount as int)->Ok_0;
        law_total_after_store(books.wallets, user, next, owned());
        if all_covered(books.wallets) {
            assert(is_covered(w));
            lemma_still_covered(books.wallets, user, next);
        }
        if is_backed(books) {
            assert forall|other: Seq<char>|
                (#[trigger] wallet_of(after.wallets, other)).held == backing(after, other) by {
                assert(wallet_of(books.wallets, other).held == backing(books, other));
            }
        }
    }
}

/// What a pending payout keeps back for a user.
pub open spec fn payout_backing(user: Seq<char>) -> spec_fn(Seq<char>, PayoutState) -> int {
    |id: Seq<char>, payout: PayoutState|
        if payout.status == "pending"@ && payout.user_id == user {
            payout.amount
        } else {
            0
        }
}

/// Whether what every wallet keeps back for payouts is exactly what its pending payouts ask
/// for.
pub open spec fn payouts_are_backed(books: Books) -> bool {
    forall|user: Seq<char>|
        (#[trigger] wallet_of(books.wallets, user)).payout_held == total(
            books.payouts,
            payout_backing(user),
        )
}

/// A request for a payout under a new identifier keeps payouts backed.
pub proof fn law_a_requested_payout_is_backed(
    books: Books,
    user: Seq<char>,
    input: RequestPayoutInput,
    now: i64,
    payout_id: Seq<char>,
    journal_id: Seq<char>,
    after: Books,
    answer: PayoutAnswer,
)
    requires
        payout_requested(books, user, input, now, payout_id, journal_id) == Ok::<
            (Books, PayoutAnswer),
            Seq<char>,
        >((after, answer)),
        payouts_are_backed(books),
        lookup(books.payouts, payout_id) is None,
    ensures
        payouts_are_backed(after),
{
    if answer.applied {
        assert forall|other: Seq<char>|
            (#[trigger] wallet_of(after.wallets, other)).payout_held == total(
                after.payouts,
                payout_backing(other),
            ) by {
            assert(wallet_of(books.wallets, other).payout_held == total(
                books.payouts,
                payout_backing(other),
            ));
            law_total_after_store(books.payouts, payout_id, answer.payout, payout_backing(other));
        }
    }
}

/// Deciding a payout keeps payouts and held funds backed and wallets covered. A payout that
/// is rejected goes back to its owner; one that is paid leaves the node, and with it exactly
/// its amount.
pub proof fn law_deciding_a_payout_keeps_the_books(
    books: Books,
    caller: Seq<char>,
    input: ResolvePayoutInput,
    now: i64,
    journal_id: Seq<char>,
    after: Books,
    answer: PayoutAnswer,
)
    requires
        payout_resolved(books, caller, input, now, journal_id) == Ok::<
            (Books, PayoutAnswer),
            Seq<char>,
        >((after, answer)),
    ensures
        payouts_are_backed(books) ==> payouts_are_backed(after),
        is_backed(books) ==> is_backed(after),
        all_covered(books.wallets) ==> all_covered(after.wallets),
        money(after) == money(books) - if answer.applied && input.status@ == "paid"@ {
            answer.payout.amount
        } else {
            0
        },
{
    if answer.applied {
        reveal_strlit("paid");
        reveal_strlit("rejected");
        reveal_strlit("pending");
        assert("paid"@.len() == 4);
        assert("rejected"@.len() == 8);
        assert("pending"@.len() == 7);
        let payout = lookup(books.payouts, input.payout_id@)->0;
        let user = payout.user_id;
        let w = wallet_of(books.wallets, user);
        let rejected = input.status@ == "rejected"@;
        let next = payout_decided(w, payout.amount, rejected)->Ok_0;
        law_total_after_store(books.wallets, user, next, owned());
        if all_covered(books.wallets) {
            assert(is_covered(w));
            lemma_still_covered(books.wallets, user, next);
        }
        if is_backed(books) {
            assert forall|other: Seq<char>|
                (#[trigger] wallet_of(after.wallets, other)).held == backing(after, other) by {
                assert(wallet_of(books.wallets, other).held == backing(books, other));
            }
        }
        if payouts_are_backed(books) {
            assert forall|other: Seq<char>|
                (#[trigger] wallet_of(after.wallets, other)).payout_held == total(
                    after.payouts,
                    payout_backing(other),
                ) by {
                assert(wallet_of(books.wallets, other).payout_held == total(
                    books.payouts,
                    payout_backing(other),
                ));
                law_total_after_store(
                    books.payouts,
                    input.payout_id@,
                    answer.payout,
                    payout_backing(other),
                );
            }
        }
    }
}

/// An adjustment changes what all wallets own by exactly its amount, keeps held funds
/// backed, and keeps wallets covered.
pub proof fn law_an_adjustment_adds_its_amount(
    books: Books,
    caller: Seq<char>,
    input: PaymentAdjustmentInput,
    metadata_size: int,
    now: i64,
    journal_id: Seq<char>,
    after: Books,
    answer: AdjustmentAnswer,
)
    requires
        payment_adjusted(books, caller, input, metadata_size, now, journal_id) == Ok::<
            (Books, AdjustmentAnswer),
            Seq<char>,
        >((after, answer)),
    ensures
        money(after) == money(books) + if answer.applied {
            input.amount as int
        } else {
            0
        },
        is_backed(books) ==> is_backed(after),
        payouts_are_backed(books) ==> payouts_are_backed(after),
        all_covered(books.wallets) ==> all_covered(after.wallets),
{
    if answer.applied {
        let user = input.user_id@;
        let w = wallet_of(books.wallets, user);
        let (next, _, _) = adjusted(w, input.amount as int)->Ok_0;
        law_total_after_store(books.wallets, user, next, owned());
        if all_covered(books.wallets) {
            assert(is_covered(w));
            lemma_still_covered(books.wallets, user, next);
        }
        if is_backed(books) {
            assert forall|other: Seq<char>|
                (#[trigger] wallet_of(after.wallets, other)).held == backing(after, other) by {
                assert(wallet_of(books.wallets, other).held == backing(books, other));
            }
        }
        if payouts_are_backed(books) {
            assert forall|other: Seq<char>|
                (#[trigger] wallet_of(after.wallets, other)).payout_held == total(
                    after.payouts,
                    payout_backing(other),
                ) by {
                assert(wallet_of(books.wallets, other).payout_held == total(
                    books.payouts,
                    payout_backing(other),
                ));
            }
        }
    }
}

// ---------------------------------------------------------------- spending

/// What a user spent on a hold.
pub open spec fn hold_spending(user: Seq<char>) -> spec_fn(Seq<char>, HoldState) -> int {
    |id: Seq<char>, hold: HoldState|
        if hold.status == "settled"@ && hold.payer_user_id == user {
            hold.actual_amount
        } else {
            0
        }
}

/// What a user spent on a run that a slice of a pool was reserved for.
pub open spec fn run_spending(user: Seq<char>) -> spec_fn(Seq<char>, ReservationState) -> int {
    |id: Seq<char>, run: ReservationState|
        if run.status == "settled"@ && run.payer_user_id == user {
            run.actual_amount
        } else {
            0
        }
}

/// What a user was charged while a run went on.
pub open spec fn live_spending(user: Seq<char>) -> spec_fn(Seq<char>, LiveDebitState) -> int {
    |id: Seq<char>, debit: LiveDebitState|
        if debit.payer_user_id == user {
            debit.charged_total
        } else {
            0
        }
}

/// What the records of the books say that a user spent.
pub open spec fn spending(books: Books, user: Seq<char>) -> int {
    total(books.holds, hold_spending(user)) + total(books.reservations, run_spending(user)) + total(
        books.live_debits,
        live_spending(user),
    )
}

/// Whether what every wallet says it spent is exactly what the records say.
pub open spec fn spending_is_recorded(books: Books) -> bool {
    forall|user: Seq<char>|
        (#[trigger] wallet_of(books.wallets, user)).spent == spending(books, user)
}

proof fn lemma_pool_spending(
    wallets: Rows<Wallet>,
    payer: Seq<char>,
    users: Rows<i64>,
    sum: int,
    missing: Seq<char>,
    after: Rows<Wallet>,
)
    requires
        paid_from_pool(wallets, payer, users, sum, missing) == Ok::<Rows<Wallet>, Seq<char>>(after),
        adds_up(users, sum),
        sum >= 0,
    ensures
        forall|user: Seq<char>|
            (#[trigger] wallet_of(after, user)).spent == wallet_of(wallets, user).spent + if user
                == payer {
                sum
            } else {
                0
            },
{
    lemma_rows_positive(users, sum);
    let paid = all_credited(wallets, users, missing)->Ok_0;
    lemma_credits(wallets, users, missing, paid);
    assert forall|user: Seq<char>|
        (#[trigger] wallet_of(after, user)).spent == wallet_of(wallets, user).spent + if user
            == payer {
            sum
        } else {
            0
        } by {
        assert(wallet_of(paid, user).spent == wallet_of(wallets, user).spent);
    }
}

/// Settling a hold records what was spent on it.
pub proof fn law_settling_a_hold_records_its_spending(
    books: Books,
    authority: Seq<char>,
    input: SettleHoldInput,
    now: i64,
    journal_id: Seq<char>,
    after: Books,
    answer: HoldAnswer,
)
    requires
        hold_settled(books, authority, input, now, journal_id) == Ok::<
            (Books, HoldAnswer),
            Seq<char>,
        >((after, answer)),
        spending_is_recorded(books),
    ensures
        spending_is_recorded(after),
{
    if answer.applied {
        lemma_status_words();
        let payer = input.payer_user_id@;
        let hold = lookup(books.holds, input.hold_id@)->0;
        let lines = lines_of(input.lines@);
        let caps = caps_of(hold.beneficiaries->0);
        let tally = tally_of(lines, caps, payer, Rules::Hold)->Ok_0;
        law_a_tally_adds_up(lines, caps, payer, Rules::Hold);
        lemma_rows_positive(tally.users, tally.sum);
        let spender = charged(wallet_of(books.wallets, payer), tally.sum)->Ok_0;
        let start = stored(books.wallets, payer, spender);
        let paid = all_credited(start, tally.users, Rules::Hold.missing())->Ok_0;
        lemma_credits(start, tally.users, Rules::Hold.missing(), paid);
        assert forall|user: Seq<char>|
            (#[trigger] wallet_of(after.wallets, user)).spent == spending(after, user) by {
            assert(wallet_of(books.wallets, user).spent == spending(books, user));
            assert(wallet_of(paid, user).spent == wallet_of(start, user).spent);
            law_total_after_store(books.holds, input.hold_id@, answer.hold, hold_spending(user));
        }
    }
}

/// Settling a slice of a pool records what was spent on its run.
pub proof fn law_settling_a_slice_records_its_spending(
    books: Books,
    authority: Seq<char>,
    input: SettlePoolInput,
    now: i64,
    journal_id: Seq<char>,
    after: Books,
    answer: SliceAnswer,
)
    requires
        slice_settled(books, authority, input, now, journal_id) == Ok::<
            (Books, SliceAnswer),
            Seq<char>,
        >((after, answer)),
        spending_is_recorded(books),
    ensures
        spending_is_recorded(after),
{
    if answer is Settled {
        reveal_strlit("reserved");
        reveal_strlit("settled");
        assert("reserved"@.len() == 8);
        assert("settled"@.len() == 7);
        let payer = input.payer_user_id@;
        let caps = crate::finance::pool_runs::authorized_plan(
            books.quotes,
            input.quote_id@,
            payer,
            "quote payer does not match settlement"@,
            true,
        )->Ok_0;
        let lines = lines_of(input.lines@);
        let tally = tally_of(lines, caps, payer, Rules::Reservation)->Ok_0;
        law_a_tally_adds_up(lines, caps, payer, Rules::Reservation);
        lemma_pool_spending(
            books.wallets,
            payer,
            tally.users,
            tally.sum,
            Rules::Reservation.missing(),
            after.wallets,
        );
        let settled = lookup(after.reservations, input.run_id@)->0;
        assert forall|user: Seq<char>|
            (#[trigger] wallet_of(after.wallets, user)).spent == spending(after, user) by {
            assert(wallet_of(books.wallets, user).spent == spending(books, user));
            law_total_after_store(books.reservations, input.run_id@, settled, run_spending(user));
        }
    }
}

/// A live debit records what it charged, where the run's earlier debits were charged to the
/// same payer.
pub proof fn law_a_debit_records_its_spending(
    books: Books,
    authority: Seq<char>,
    input: DebitPoolInput,
    now: i64,
    journal_id: Seq<char>,
    after: Books,
    answer: DebitAnswer,
)
    requires
        pool_debited(books, authority, input, now, journal_id) == Ok::<
            (Books, DebitAnswer),
            Seq<char>,
        >((after, answer)),
        spending_is_recorded(books),
        lookup(books.live_debits, input.run_id@) matches Some(record) ==> record.payer_user_id
            == input.payer_user_id@,
    ensures
        spending_is_recorded(after),
{
    if answer is Charged {
        let payer = input.payer_user_id@;
        let caps = crate::finance::pool_runs::authorized_plan(
            books.quotes,
            input.quote_id@,
            payer,
            "quote payer does not match debit"@,
            false,
        )->Ok_0;
        let lines = lines_of(input.lines@);
        let tally = tally_of(lines, caps, payer, Rules::Debit)->Ok_0;
        law_a_tally_adds_up(lines, caps, payer, Rules::Debit);
        lemma_pool_spending(
            books.wallets,
            payer,
            tally.users,
            tally.sum,
            Rules::Debit.missing(),
            after.wallets,
        );
        let recorded = lookup(after.live_debits, input.run_id@)->0;
        assert forall|user: Seq<char>|
            (#[trigger] wallet_of(after.wallets, user)).spent == spending(after, user) by {
            assert(wallet_of(books.wallets, user).spent == spending(books, user));
            law_total_after_store(books.live_debits, input.run_id@, recorded, live_spending(user));
        }
    }
}

/// Opening, starting and releasing a hold is no spending.
pub proof fn law_a_hold_alone_is_no_spending(
    books: Books,
    caller: Seq<char>,
    input: CreateHoldInput,
    facts: HoldFacts,
    start: StartHoldInput,
    release: ReleaseHoldInput,
    now: i64,
    hold_id: Seq<char>,
    journal_id: Seq<char>,
)
    requires
        spending_is_recorded(books),
        lookup(books.holds, hold_id) is None,
    ensures
        hold_created(books, caller, input, facts, now, hold_id, journal_id) matches Ok((after, _))
            ==> spending_is_recorded(after),
        hold_started(books, caller, start, now, journal_id) matches Ok((after, _))
            ==> spending_is_recorded(after),
        hold_released(books, caller, release, now, journal_id) matches Ok((after, _))
            ==> spending_is_recorded(after),
{
    lemma_status_words();
    lemma_settled_is_final();
    if let Ok((after, answer)) = hold_created(
        books,
        caller,
        input,
        facts,
        now,
        hold_id,
        journal_id,
    ) {
        lemma_no_spending(books, after, hold_id, answer.hold);
    }
    if let Ok((after, answer)) = hold_started(books, caller, start, now, journal_id) {
        lemma_no_spending(books, after, start.hold_id@, answer.hold);
    }
    if let Ok((after, answer)) = hold_released(books, caller, release, now, journal_id) {
        lemma_no_spending(books, after, release.hold_id@, answer.hold);
    }
}

proof fn lemma_settled_is_final()
    ensures
        "released"@ != "settled"@,
        "expired"@ != "settled"@,
        "open"@ != "settled"@,
        "running"@ != "settled"@,
{
    reveal_strlit("settled");
    reveal_strlit("released");
    reveal_strlit("expired");
    reveal_strlit("open");
    reveal_strlit("running");
    assert("settled"@[0] == 's');
    assert("released"@[0] == 'r');
    assert("expired"@[0] == 'e');
    assert("open"@[0] == 'o');
    assert("running"@[0] == 'r');
}

/// Books in which one unsettled hold changed, and no wallet's spending, say of the spending
/// what they said.
proof fn lemma_no_spending(books: Books, after: Books, id: Seq<char>, hold: HoldState)
    requires
        spending_is_recorded(books),
        after == books || {
            &&& after.holds == stored(books.holds, id, hold)
            &&& hold.status != "settled"@
            &&& lookup(books.holds, id) matches Some(was) ==> was.status != "settled"@
            &&& after.reservations == books.reservations
            &&& after.live_debits == books.live_debits
            &&& forall|user: Seq<char>|
                (#[trigger] wallet_of(after.wallets, user)).spent == wallet_of(
                    books.wallets,
                    user,
                ).spent
        },
    ensures
        spending_is_recorded(after),
{
    assert forall|user: Seq<char>|
        (#[trigger] wallet_of(after.wallets, user)).spent == spending(after, user) by {
        assert(wallet_of(books.wallets, user).spent == spending(books, user));
        law_total_after_store(books.holds, id, hold, hold_spending(user));
    }
}

} // verus!
