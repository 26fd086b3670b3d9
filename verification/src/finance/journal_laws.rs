//! What the journal keeps of holds, and who finds it there.
use vstd::prelude::*;

use crate::finance::audit_laws::line_sum;
use crate::finance::earning_laws::paid_to;
use crate::finance::hold_laws::lemma_tally_tells_what_lines_pay;
use crate::finance::holds::{
    hold_created, hold_released, hold_settled, hold_started, CreateHoldInput, HoldAnswer, HoldFacts,
    ReleaseHoldInput, SettleHoldInput, StartHoldInput,
};
use crate::finance::journal::{figures, gross_posting, line_tree, lines_tree, posting};
use crate::finance::ledger::{
    indexed, journal_index_key, journaled, lines_of, wallet_of, Books, Entry, Line, Wallet,
};
use crate::finance::payout_laws::{lemma_posted, posts};
use crate::finance::settlement::{caps_of, credit_postings, quote_plan, tally_of, Rules};
use crate::json::Tree;
use crate::table::{law_lookup_after_store, lemma_row_from, lookup, row_from, Rows};

verus! {

broadcast use law_lookup_after_store;

// ---------------------------------------------------------------- the index

/// A journal entry is kept under its id, everyone named in it finds it under their own index, and
/// no other entry or link changes.
pub proof fn law_participants_find_an_entry(
    books: Books,
    id: Seq<char>,
    entry: Entry,
    participants: Seq<Seq<char>>,
    user: Seq<char>,
    key: Seq<char>,
)
    ensures
        lookup(journaled(books, id, entry, participants).journal, id) == Some(entry),
        key != id ==> lookup(journaled(books, id, entry, participants).journal, key) == lookup(
            books.journal,
            key,
        ),
        participants.contains(user) && user.len() > 0 ==> lookup(
            journaled(books, id, entry, participants).links,
            journal_index_key(user, entry.created_at, id),
        ) == Some(id),
        (forall|u: Seq<char>| participants.contains(u) ==> key != #[trigger] journal_index_key(
            u,
            entry.created_at,
            id,
        )) ==> lookup(journaled(books, id, entry, participants).links, key) == lookup(
            books.links,
            key,
        ),
        journaled(books, id, entry, participants) == (Books {
            journal: journaled(books, id, entry, participants).journal,
            links: journaled(books, id, entry, participants).links,
            ..books
        }),
{
    lemma_indexed(books.links, participants, entry.created_at, id, user, key);
}

proof fn lemma_indexed(
    links: Rows<Seq<char>>,
    participants: Seq<Seq<char>>,
    now: int,
    id: Seq<char>,
    user: Seq<char>,
    key: Seq<char>,
)
    ensures
        participants.contains(user) && user.len() > 0 ==> lookup(
            indexed(links, participants, now, id),
            journal_index_key(user, now, id),
        ) == Some(id),
        (forall|u: Seq<char>| participants.contains(u) ==> key != #[trigger] journal_index_key(
            u,
            now,
            id,
        )) ==> lookup(indexed(links, participants, now, id), key) == lookup(links, key),
    decreases participants.len(),
{
    if participants.len() > 0 {
        let front = participants.drop_last();
        lemma_indexed(links, front, now, id, user, key);
        assert(participants.contains(participants.last())) by {
            assert(participants[participants.len() - 1] == participants.last());
        }
        if participants.contains(user) && participants.last() != user {
            let i = choose|i: int| 0 <= i < participants.len() && participants[i] == user;
            assert(front[i] == user);
        }
        if forall|u: Seq<char>| participants.contains(u) ==> key != #[trigger] journal_index_key(
            u,
            now,
            id,
        ) {
            assert forall|u: Seq<char>| front.contains(u) implies key
                != #[trigger] journal_index_key(u, now, id) by {
                let i = choose|i: int| 0 <= i < front.len() && front[i] == u;
                assert(participants[i] == u);
            }
            assert(key != journal_index_key(participants.last(), now, id));
        }
    }
}

// ---------------------------------------------------------------- holds

proof fn lemma_hold_words()
    ensures
        "entries"@.len() == 7,
        "quoteId"@.len() == 7,
        "entries"@ != "quoteId"@,
        "pricingVersion"@.len() == 14,
        "projectId"@.len() == 9,
        "runId"@.len() == 5,
        "status"@.len() == 6,
        "reason"@.len() == 6,
        "status"@ != "reason"@,
        "settlementId"@.len() == 12,
        "usageHash"@.len() == 9,
        "actualAmount"@.len() == 12,
        "settlementId"@ != "actualAmount"@,
        "refundedAmount"@.len() == 14,
        "settlementLines"@.len() == 15,
{
    reveal_strlit("entries");
    reveal_strlit("quoteId");
    reveal_strlit("pricingVersion");
    reveal_strlit("projectId");
    reveal_strlit("runId");
    reveal_strlit("status");
    reveal_strlit("reason");
    reveal_strlit("settlementId");
    reveal_strlit("usageHash");
    reveal_strlit("actualAmount");
    reveal_strlit("refundedAmount");
    reveal_strlit("settlementLines");
    assert("entries"@[0] == 'e' && "quoteId"@[0] == 'q');
    assert("status"@[0] == 's' && "reason"@[0] == 'r');
    assert("settlementId"@[0] == 's' && "actualAmount"@[0] == 'a');
}

/// The journal says of an opened hold that its amount moved from what the payer has to what is
/// held.
pub proof fn law_an_opened_hold_is_journaled(
    books: Books,
    payer: Seq<char>,
    input: CreateHoldInput,
    facts: HoldFacts,
    now: i64,
    hold_id: Seq<char>,
    journal_id: Seq<char>,
    after: Books,
    answer: HoldAnswer,
)
    requires
        hold_created(books, payer, input, facts, now, hold_id, journal_id) == Ok::<
            (Books, HoldAnswer),
            Seq<char>,
        >((after, answer)),
        answer.applied,
    ensures
        answer.journal_id == Some(journal_id),
        lookup(after.journal, journal_id) matches Some(entry) && {
            &&& entry.kind == "hold.created"@
            &&& entry.hold_id == hold_id
            &&& entry.payer_user_id == payer
            &&& entry.created_at == now
            &&& posts(entry.payload, 0, "wallet:"@ + payer + ":available"@, -input.max_amount as int)
            &&& posts(entry.payload, 1, "wallet:"@ + payer + ":held"@, input.max_amount as int)
            &&& entry.payload.text("quoteId"@) == Some(input.quote_id@)
            &&& entry.payload.text("pricingVersion"@) == Some(input.pricing_version@)
            &&& entry.payload.text("projectId"@) == Some(answer.hold.project_id)
        },
{
    lemma_hold_words();
    let amounts = seq![
        ("wallet:"@ + payer + ":available"@, -(input.max_amount as int)),
        ("wallet:"@ + payer + ":held"@, input.max_amount as int),
    ];
    lemma_posted(amounts, 0);
    lemma_posted(amounts, 1);
}

/// The journal says of a started hold which run it is for.
pub proof fn law_a_started_hold_is_journaled(
    books: Books,
    authority: Seq<char>,
    input: StartHoldInput,
    now: i64,
    journal_id: Seq<char>,
    after: Books,
    answer: HoldAnswer,
)
    requires
        hold_started(books, authority, input, now, journal_id) == Ok::<
            (Books, HoldAnswer),
            Seq<char>,
        >((after, answer)),
        answer.applied,
    ensures
        answer.journal_id == Some(journal_id),
        lookup(after.journal, journal_id) matches Some(entry) && {
            &&& entry.kind == "hold.started"@
            &&& entry.hold_id == input.hold_id@
            &&& entry.payer_user_id == input.payer_user_id@
            &&& entry.created_at == now
            &&& entry.payload.text("quoteId"@) == Some(input.quote_id@)
            &&& entry.payload.text("runId"@) == Some(input.run_id@)
        },
{
    lemma_hold_words();
}

proof fn lemma_credit_posted(wallets: Rows<Wallet>, users: Rows<i64>, i: int)
    requires
        0 <= i < users.len(),
    ensures
        ({
            let (user, amount) = users[i];
            let debt = wallet_of(wallets, user).debt;
            let paid = if debt <= amount {
                debt as int
            } else {
                amount as int
            };
            &&& credit_postings(wallets, users).contains(
                gross_posting("wallet:"@ + user + ":available"@, amount - paid, amount as int),
            )
            &&& paid > 0 ==> credit_postings(wallets, users).contains(
                posting("wallet:"@ + user + ":debt"@, -paid),
            )
        }),
    decreases users.len(),
{
    let front = users.drop_last();
    let (user, amount) = users[i];
    let debt = wallet_of(wallets, user).debt;
    let paid = if debt <= amount {
        debt as int
    } else {
        amount as int
    };
    let all = credit_postings(wallets, users);
    let before = credit_postings(wallets, front);
    let credit = gross_posting("wallet:"@ + user + ":available"@, amount - paid, amount as int);
    let debit = posting("wallet:"@ + user + ":debt"@, -paid);
    assert forall|j: int| 0 <= j < before.len() implies all[j] == #[trigger] before[j] by {}
    if i < front.len() {
        assert(front[i] == users[i]);
        lemma_credit_posted(wallets, front, i);
        let j = choose|j: int| 0 <= j < before.len() && before[j] == credit;
        assert(all[j] == credit);
        if paid > 0 {
            let k = choose|k: int| 0 <= k < before.len() && before[k] == debit;
            assert(all[k] == debit);
        }
    } else {
        assert(all[before.len() as int] == credit);
        if paid > 0 {
            assert(all[before.len() as int + 1] == debit);
        }
    }
}

/// The journal says of a settled hold that its amount left what is held, that the rest went back to
/// what the payer has, and what each beneficiary got of it after their debt was paid off.
#[verifier::rlimit(40)]
pub proof fn law_a_settled_hold_is_journaled(
    books: Books,
    authority: Seq<char>,
    input: SettleHoldInput,
    now: i64,
    journal_id: Seq<char>,
    after: Books,
    answer: HoldAnswer,
    user: Seq<char>,
)
    requires
        hold_settled(books, authority, input, now, journal_id) == Ok::<
            (Books, HoldAnswer),
            Seq<char>,
        >((after, answer)),
        answer.applied,
    ensures
        answer.journal_id == Some(journal_id),
        lookup(books.holds, input.hold_id@) matches Some(hold) && (lookup(
            after.journal,
            journal_id,
        ) matches Some(entry) && {
            let payer = input.payer_user_id@;
            let lines = lines_of(input.lines@);
            let gets = paid_to(lines, user);
            let debt = wallet_of(books.wallets, user).debt;
            let paid = if debt <= gets {
                debt as int
            } else {
                gets
            };
            &&& entry.kind == "hold.settled"@
            &&& entry.hold_id == input.hold_id@
            &&& entry.payer_user_id == payer
            &&& entry.created_at == now
            &&& posts(entry.payload, 0, "wallet:"@ + payer + ":held"@, -hold.max_amount)
            &&& posts(
                entry.payload,
                1,
                "wallet:"@ + payer + ":available"@,
                hold.max_amount - line_sum(lines),
            )
            &&& gets > 0 ==> entry.payload.items("entries"@)->0.contains(
                gross_posting("wallet:"@ + user + ":available"@, gets - paid, gets),
            )
            &&& gets > 0 && paid > 0 ==> entry.payload.items("entries"@)->0.contains(
                posting("wallet:"@ + user + ":debt"@, -paid),
            )
            &&& entry.payload.text("quoteId"@) == Some(input.quote_id@)
            &&& entry.payload.text("settlementId"@) == Some(input.settlement_id@)
            &&& entry.payload.text("usageHash"@) == Some(input.usage_hash@)
            &&& entry.payload.whole("actualAmount"@) == Some(line_sum(lines) as i64)
            &&& entry.payload.whole("refundedAmount"@) == Some(
                (hold.max_amount - line_sum(lines)) as i64,
            )
            &&& entry.payload.field("settlementLines"@) == Some(lines_tree(lines))
        }),
{
    lemma_hold_words();
    let payer = input.payer_user_id@;
    let lines = lines_of(input.lines@);
    let hold = lookup(books.holds, input.hold_id@)->0;
    let caps = caps_of(hold.beneficiaries->0);
    let tally = tally_of(lines, caps, payer, Rules::Hold)->Ok_0;
    lemma_tally_tells_what_lines_pay(lines, caps, payer, Rules::Hold, user);
    let refund = hold.max_amount - line_sum(lines);
    let two = seq![("actualAmount"@, line_sum(lines)), ("refundedAmount"@, refund)];
    reveal_with_fuel(figures, 4);
    assert(two.drop_last() =~= seq![("actualAmount"@, line_sum(lines))]);
    assert(two.drop_last().drop_last() =~= Seq::empty());
    let entry = lookup(after.journal, journal_id)->0;
    let credits = credit_postings(books.wallets, tally.users);
    let first = posting("wallet:"@ + payer + ":held"@, -hold.max_amount);
    let second = posting("wallet:"@ + payer + ":available"@, refund);
    let list = seq![first, second] + credits;
    lemma_settled_payload(input, list, line_sum(lines), refund);
    assert(entry.payload.items("entries"@) == Some(list));
    assert(list[0] == first && list[1] == second);
    lemma_posting("wallet:"@ + payer + ":held"@, -hold.max_amount);
    lemma_posting("wallet:"@ + payer + ":available"@, refund);
    if paid_to(lines, user) > 0 {
        lemma_row_from(tally.users, user, 0);
        let i = row_from(tally.users, user, 0)->0;
        lemma_credit_posted(books.wallets, tally.users, i);
        assert forall|x: Tree| credits.contains(x) implies list.contains(x) by {
            let j = choose|j: int| 0 <= j < credits.len() && credits[j] == x;
            assert(list[j + 2] == x);
        }
    }
}

proof fn lemma_posting(account: Seq<char>, amount: int)
    ensures
        posting(account, amount).text("account"@) == Some(account),
        posting(account, amount).whole("amount"@) == Some(amount as i64),
{
    reveal_strlit("account");
    reveal_strlit("amount");
    assert("account"@.len() == 7 && "amount"@.len() == 6);
}

proof fn lemma_settled_payload(input: SettleHoldInput, entries: Seq<Tree>, actual: int, refund: int)
    ensures
        ({
            let payload = crate::finance::holds::settled_payload(input, entries, actual, refund);
            &&& payload.items("entries"@) == Some(entries)
            &&& payload.text("quoteId"@) == Some(input.quote_id@)
            &&& payload.text("settlementId"@) == Some(input.settlement_id@)
            &&& payload.text("usageHash"@) == Some(input.usage_hash@)
            &&& payload.whole("actualAmount"@) == Some(actual as i64)
            &&& payload.whole("refundedAmount"@) == Some(refund as i64)
            &&& payload.field("settlementLines"@) == Some(lines_tree(lines_of(input.lines@)))
        }),
{
    lemma_hold_words();
    reveal_with_fuel(figures, 4);
    let two = seq![("actualAmount"@, actual), ("refundedAmount"@, refund)];
    assert(two.drop_last() =~= seq![("actualAmount"@, actual)]);
    assert(two.drop_last().drop_last() =~= Seq::empty());
}

/// The journal says of a released hold that its amount moved from what is held back to what the
/// payer has, and why.
pub proof fn law_a_released_hold_is_journaled(
    books: Books,
    caller: Seq<char>,
    input: ReleaseHoldInput,
    now: i64,
    journal_id: Seq<char>,
    after: Books,
    answer: HoldAnswer,
)
    requires
        hold_released(books, caller, input, now, journal_id) == Ok::<
            (Books, HoldAnswer),
            Seq<char>,
        >((after, answer)),
        answer.applied,
    ensures
        answer.journal_id == Some(journal_id),
        lookup(books.holds, input.hold_id@) matches Some(hold) && (lookup(
            after.journal,
            journal_id,
        ) matches Some(entry) && {
            let payer = input.payer_user_id@;
            &&& entry.kind == "hold.released"@
            &&& entry.hold_id == input.hold_id@
            &&& entry.payer_user_id == payer
            &&& entry.created_at == now
            &&& posts(entry.payload, 0, "wallet:"@ + payer + ":held"@, -hold.max_amount)
            &&& posts(entry.payload, 1, "wallet:"@ + payer + ":available"@, hold.max_amount)
            &&& entry.payload.text("status"@) == Some(answer.hold.status)
            &&& entry.payload.text("reason"@) == Some(input.reason@)
        }),
{
    lemma_hold_words();
    let payer = input.payer_user_id@;
    let hold = lookup(books.holds, input.hold_id@)->0;
    let amounts = seq![
        ("wallet:"@ + payer + ":held"@, -hold.max_amount),
        ("wallet:"@ + payer + ":available"@, hold.max_amount),
    ];
    lemma_posted(amounts, 0);
    lemma_posted(amounts, 1);
}

// ---------------------------------------------------------------- documents

/// A line is journaled with its user, role, amount and source.
pub proof fn law_lines_are_journaled_as_they_are(lines: Seq<Line>, i: int)
    requires
        0 <= i < lines.len(),
    ensures
        lines_tree(lines) matches Tree::Array(list) && list.len() == lines.len() && {
            &&& list[i].text("userId"@) == Some(lines[i].user_id)
            &&& list[i].text("role"@) == Some(lines[i].role)
            &&& list[i].whole("amount"@) == Some(lines[i].amount as i64)
            &&& list[i].text("sourceRef"@) == Some(lines[i].source_ref)
        },
{
    reveal_strlit("userId");
    reveal_strlit("role");
    reveal_strlit("amount");
    reveal_strlit("sourceRef");
    assert("userId"@.len() == 6 && "userId"@[0] == 'u');
    assert("role"@.len() == 4);
    assert("amount"@.len() == 6 && "amount"@[0] == 'a');
    assert("sourceRef"@.len() == 9);
    assert(lines_tree(lines)->Array_0[i] == line_tree(lines[i]));
}

/// The beneficiaries of a quote are read row by row: the user, the role, and the cap, which is
/// nothing where there is no number.
pub proof fn law_quoted_beneficiaries_are_read_row_by_row(rows: Seq<Tree>, i: int)
    requires
        0 <= i < rows.len(),
    ensures
        quote_plan(rows).len() == rows.len(),
        quote_plan(rows)[i].user_id == match rows[i].text("userId"@) {
            Some(user) => user,
            None => Seq::empty(),
        },
        quote_plan(rows)[i].role == match rows[i].text("role"@) {
            Some(role) => role,
            None => Seq::empty(),
        },
        quote_plan(rows)[i].max_amount == match rows[i].number("maxAmount"@) {
            Some(n) => n as int,
            None => 0,
        },
{
}

} // verus!
