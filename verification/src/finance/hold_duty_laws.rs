//! When a hold is opened, started, settled, released and shown.
use vstd::prelude::*;

use crate::finance::audit_laws::line_sum;
use crate::finance::earning_laws::paid_to;
use crate::finance::hold_laws::{lemma_each_earns_their_amount, lemma_tally_tells_what_lines_pay};
use crate::finance::holds::{
    hold_created, hold_released, hold_settled, hold_shown, hold_started, plan_total, signed_request,
    CreateHoldInput, GetHoldInput, HoldFacts, ReleaseHoldInput, SettleHoldInput, StartHoldInput,
};
use crate::finance::ids::{
    beneficiaries_of, is_finance_hash, is_finance_id, plan_bytes, request_hash, Beneficiary,
};
use crate::finance::ledger::{lines_of, wallet_of, Books, HoldState, Wallet};
use crate::finance::settlement::{
    all_credited, caps_of, law_a_tally_adds_up, lemma_rows_positive, tally_of, Rules,
};
use crate::finance::settlement_laws::{
    can_earn, caps_fit, is_line, law_lines_within_their_plan_are_taken, lemma_caps,
    lemma_lines_can_be_paid, names, within_caps,
};
use crate::json::same_value;
use crate::outside::ascii_lower;
use crate::table::{law_lookup_after_store, lookup, stored, Rows};
use vstd::utf8::encode_utf8;

verus! {

broadcast use law_lookup_after_store;

// ---------------------------------------------------------------- opening

/// What the caps of a plan add up to.
pub open spec fn cap_total(plan: Seq<Beneficiary>) -> int
    decreases plan.len(),
{
    if plan.len() == 0 {
        0
    } else {
        cap_total(plan.drop_last()) + plan.last().max_amount
    }
}

/// Whether a plan pays others than the payer, each in a role once, up to a positive cap.
pub open spec fn pays_others(
    plan: Seq<Beneficiary>,
    payer: Seq<char>,
    wallets: Rows<Wallet>,
) -> bool {
    &&& forall|i: int|
        0 <= i < plan.len() ==> {
            &&& is_finance_id((#[trigger] plan[i]).user_id)
            &&& is_finance_id(plan[i].role)
            &&& plan[i].max_amount > 0
            &&& plan[i].user_id != payer
            &&& wallet_of(wallets, plan[i].user_id).balance is Some
        }
    &&& forall|i: int, j: int|
        0 <= i < j < plan.len() ==> (#[trigger] plan[i]).user_id != (#[trigger] plan[j]).user_id
            || plan[i].role != plan[j].role
}

/// A plan is taken exactly where it pays others than the payer, each in a role once, and its caps
/// add up to what can be held in 64 bits.
pub proof fn law_plans_that_pay_others_are_taken(
    plan: Seq<Beneficiary>,
    payer: Seq<char>,
    wallets: Rows<Wallet>,
)
    ensures
        (plan_total(plan, payer, wallets) is Ok) == (pays_others(plan, payer, wallets) && cap_total(
            plan,
        ) <= i64::MAX),
        plan_total(plan, payer, wallets) matches Ok(sum) ==> sum == cap_total(plan) && sum >= 0,
        pays_others(plan, payer, wallets) ==> cap_total(plan) >= 0,
    decreases plan.len(),
{
    if plan.len() > 0 {
        let front = plan.drop_last();
        let last = plan.last();
        law_plans_that_pay_others_are_taken(front, payer, wallets);
        if is_finance_id(last.user_id) && is_finance_id(last.role) {
            lemma_caps(front, last.user_id, last.role);
        }
        if plan_total(plan, payer, wallets) is Ok {
            assert forall|i: int| 0 <= i < plan.len() implies {
                &&& is_finance_id((#[trigger] plan[i]).user_id)
                &&& is_finance_id(plan[i].role)
                &&& plan[i].max_amount > 0
                &&& plan[i].user_id != payer
                &&& wallet_of(wallets, plan[i].user_id).balance is Some
            } by {
                if i < front.len() {
                    assert(front[i] == plan[i]);
                }
            }
            assert forall|i: int, j: int| 0 <= i < j < plan.len() implies (
            #[trigger] plan[i]).user_id != (#[trigger] plan[j]).user_id || plan[i].role
                != plan[j].role by {
                assert(front[i] == plan[i]);
                if j < front.len() {
                    assert(front[j] == plan[j]);
                } else if plan[i].user_id == last.user_id && plan[i].role == last.role {
                    assert(names(front, last.user_id, last.role));
                }
            }
        }
        if pays_others(plan, payer, wallets) {
            assert forall|i: int| 0 <= i < front.len() implies {
                &&& is_finance_id((#[trigger] front[i]).user_id)
                &&& is_finance_id(front[i].role)
                &&& front[i].max_amount > 0
                &&& front[i].user_id != payer
                &&& wallet_of(wallets, front[i].user_id).balance is Some
            } by {
                assert(front[i] == plan[i]);
            }
            assert forall|i: int, j: int| 0 <= i < j < front.len() implies (
            #[trigger] front[i]).user_id != (#[trigger] front[j]).user_id || front[i].role
                != front[j].role by {
                assert(plan[i].user_id != plan[j].user_id || plan[i].role != plan[j].role);
            }
            assert(plan[plan.len() - 1].max_amount > 0);
            if names(front, last.user_id, last.role) {
                let i = choose|i: int|
                    0 <= i < front.len() && (#[trigger] front[i]).user_id == last.user_id
                        && front[i].role == last.role;
                assert(plan[i] == front[i]);
                assert(plan[i].user_id != plan[plan.len() - 1].user_id || plan[i].role != plan[
                plan.len() - 1].role);
            }
        }
    }
}

/// Whether a request names everything that a hold needs, for at most a day.
pub open spec fn is_hold_request(input: CreateHoldInput, now: i64) -> bool {
    &&& is_finance_id(input.quote_id@)
    &&& is_finance_id(input.pricing_version@)
    &&& is_finance_id(input.idempotency_key@)
    &&& is_finance_id(input.settlement_authority@)
    &&& is_finance_id(input.meter_program_id@)
    &&& is_finance_hash(input.context_hash@)
    &&& is_finance_hash(input.beneficiary_plan_hash@)
    &&& input.max_amount > 0
    &&& now < input.expires_at <= now + 86_400_000 <= i64::MAX
    &&& 1 <= input.beneficiaries@.len() <= 64
}

/// Whether the quote of a request is the payer's, stands, and asks for exactly this hold.
pub open spec fn is_quoted(
    books: Books,
    payer: Seq<char>,
    input: CreateHoldInput,
    facts: HoldFacts,
    now: i64,
) -> bool {
    &&& lookup(books.quotes, input.quote_id@) matches Some(quote) && {
        &&& quote.text("payerUserId"@) == Some(payer)
        &&& quote.number("expiresAt"@) matches Some(expires) && 0 < expires && now <= expires
        &&& same_value(quote.field("holdRequest"@), Some(signed_request(input)))
        &&& quote.text_or_empty("projectId"@).len() > 0 ==> facts.payer_in_project
    }
    &&& wallet_of(books.wallets, input.settlement_authority@).balance is Some
    &&& facts.meter_exists
    &&& request_hash(plan_bytes(beneficiaries_of(input.beneficiaries@)))
        == input.beneficiary_plan_hash@.map_values(|c: char| ascii_lower(c))
}

/// Whether a payer without debt has an amount to set aside.
pub open spec fn can_fund(w: Wallet, amount: int) -> bool {
    &&& w.balance matches Some(balance) && 0 <= w.withdrawable <= balance && amount <= balance
    &&& w.debt == 0
    &&& 0 <= w.held && w.held + amount <= i64::MAX
}

/// A first request for a hold without a project is granted exactly where it names what a hold
/// needs, its quote stands for it, its plan pays others and adds up to the amount, and the payer
/// has the funds.
pub proof fn law_a_funded_request_opens_a_hold(
    books: Books,
    payer: Seq<char>,
    input: CreateHoldInput,
    facts: HoldFacts,
    now: i64,
    hold_id: Seq<char>,
    journal_id: Seq<char>,
)
    requires
        lookup(books.links, "FinanceHoldRequest::"@ + payer + "::"@ + input.idempotency_key@) is None,
        lookup(books.quotes, input.quote_id@) matches Some(quote) ==> quote.text_or_empty(
            "projectId"@,
        ).len() == 0,
    ensures
        ({
            let outcome = hold_created(books, payer, input, facts, now, hold_id, journal_id);
            let plan = beneficiaries_of(input.beneficiaries@);
            &&& (outcome is Ok) == {
                &&& is_hold_request(input, now)
                &&& is_quoted(books, payer, input, facts, now)
                &&& pays_others(plan, payer, books.wallets)
                &&& cap_total(plan) == input.max_amount
                &&& can_fund(wallet_of(books.wallets, payer), input.max_amount as int)
            }
            &&& outcome matches Ok((_, answer)) ==> answer.applied
        }),
{
    law_plans_that_pay_others_are_taken(
        beneficiaries_of(input.beneficiaries@),
        payer,
        books.wallets,
    );
}

// ---------------------------------------------------------------- starting

/// A first start of a hold is taken exactly where the hold is open and not past, its authority
/// asks, and payer and quote are those of the hold.
pub proof fn law_an_open_hold_can_be_started(
    books: Books,
    authority: Seq<char>,
    input: StartHoldInput,
    now: i64,
    journal_id: Seq<char>,
)
    requires
        lookup(books.links, "FinanceRun::"@ + authority + "::"@ + input.run_id@) is None,
    ensures
        (hold_started(books, authority, input, now, journal_id) is Ok) == {
            &&& is_finance_id(input.hold_id@)
            &&& is_finance_id(input.payer_user_id@)
            &&& is_finance_id(input.quote_id@)
            &&& is_finance_id(input.run_id@)
            &&& lookup(books.holds, input.hold_id@) matches Some(hold) && {
                &&& hold.status == "open"@
                &&& hold.payer_user_id == input.payer_user_id@
                &&& hold.quote_id == input.quote_id@
                &&& hold.settlement_authority == authority
                &&& 0 < hold.expires_at
                &&& now <= hold.expires_at
            }
        },
        hold_started(books, authority, input, now, journal_id) matches Ok((_, answer))
            ==> answer.applied,
{
}

// ---------------------------------------------------------------- settling

/// Whether a running hold may be settled by an authority for a run.
pub open spec fn is_settleable(
    hold: HoldState,
    authority: Seq<char>,
    input: SettleHoldInput,
    now: i64,
) -> bool {
    &&& hold.status == "running"@
    &&& hold.payer_user_id == input.payer_user_id@
    &&& hold.quote_id == input.quote_id@
    &&& hold.run_id == input.settlement_id@
    &&& hold.settlement_authority == authority
    &&& 0 < hold.expires_at
    &&& now <= hold.expires_at
    &&& hold.max_amount > 0
    &&& hold.beneficiaries matches Some(plan) && caps_fit(plan) && forall|i: int|
        0 <= i < plan.len() ==> (#[trigger] plan[i]).user_id.len() > 0 && plan[i].role.len() > 0
            && plan[i].max_amount > 0
}

/// A first settlement of a running hold without a project is taken where its lines stay within the
/// plan and the hold, the payer's wallet holds the funds, and everyone paid can earn their share.
pub proof fn law_lines_within_a_hold_are_settled(
    books: Books,
    authority: Seq<char>,
    input: SettleHoldInput,
    now: i64,
    journal_id: Seq<char>,
    hold: HoldState,
)
    requires
        lookup(
            books.links,
            "FinanceSettlement::"@ + authority + "::"@ + input.settlement_id@,
        ) is None,
        is_finance_id(input.hold_id@),
        is_finance_id(input.payer_user_id@),
        is_finance_id(input.quote_id@),
        is_finance_id(input.settlement_id@),
        is_finance_hash(input.usage_hash@),
        lookup(books.holds, input.hold_id@) == Some(hold),
        hold.project_id.len() == 0,
        is_settleable(hold, authority, input, now),
        0 <= hold.withdrawable_amount <= hold.max_amount <= i64::MAX,
        forall|i: int|
            0 <= i < input.lines@.len() ==> is_line(#[trigger] lines_of(input.lines@)[i]) && names(
                hold.beneficiaries->0,
                lines_of(input.lines@)[i].user_id,
                lines_of(input.lines@)[i].role,
            ),
        within_caps(lines_of(input.lines@), hold.beneficiaries->0),
        line_sum(lines_of(input.lines@)) <= hold.max_amount,
        ({
            let w = wallet_of(books.wallets, input.payer_user_id@);
            &&& w.balance matches Some(balance) && balance + hold.max_amount <= i64::MAX
            &&& 0 <= w.withdrawable && w.withdrawable + hold.max_amount <= i64::MAX
            &&& 0 <= w.spent && w.spent + hold.max_amount <= i64::MAX
            &&& w.held >= hold.max_amount
        }),
        paid_to(lines_of(input.lines@), input.payer_user_id@) == 0,
        forall|user: Seq<char>|
            #[trigger] paid_to(lines_of(input.lines@), user) > 0 ==> can_earn(
                wallet_of(books.wallets, user),
                paid_to(lines_of(input.lines@), user),
            ),
    ensures
        hold_settled(books, authority, input, now, journal_id) matches Ok((_, answer))
            && answer.applied,
{
    let payer = input.payer_user_id@;
    let lines = lines_of(input.lines@);
    let plan = hold.beneficiaries->0;
    law_lines_within_their_plan_are_taken(lines, plan, payer, Rules::Hold);
    let tally = tally_of(lines, caps_of(plan), payer, Rules::Hold)->Ok_0;
    law_a_tally_adds_up(lines, caps_of(plan), payer, Rules::Hold);
    lemma_tally_tells_what_lines_pay(lines, caps_of(plan), payer, Rules::Hold, payer);
    let w = wallet_of(books.wallets, payer);
    let spender = Wallet { spent: (w.spent + tally.sum) as i64, ..w };
    let start = stored(books.wallets, payer, spender);
    assert forall|user: Seq<char>| #[trigger] paid_to(lines, user) > 0 implies can_earn(
        wallet_of(start, user),
        paid_to(lines, user),
    ) by {
        assert(user != payer);
        assert(wallet_of(start, user) == wallet_of(books.wallets, user));
    }
    lemma_lines_can_be_paid(start, lines, caps_of(plan), payer, Rules::Hold);
    let paid = all_credited(start, tally.users, Rules::Hold.missing())->Ok_0;
    lemma_rows_positive(tally.users, tally.sum);
    lemma_each_earns_their_amount(start, tally.users, Rules::Hold.missing(), paid, payer);
    assert(wallet_of(paid, payer) == spender);
}

/// No settlement is taken whose lines go beyond the plan or the hold, or that another than the
/// authority asks for, or that comes too late.
pub proof fn law_nothing_beyond_a_hold_is_settled(
    books: Books,
    authority: Seq<char>,
    input: SettleHoldInput,
    now: i64,
    journal_id: Seq<char>,
    hold: HoldState,
    i: int,
)
    requires
        lookup(
            books.links,
            "FinanceSettlement::"@ + authority + "::"@ + input.settlement_id@,
        ) is None,
        lookup(books.holds, input.hold_id@) == Some(hold),
        hold.beneficiaries matches Some(plan) ==> caps_fit(plan),
        hold_settled(books, authority, input, now, journal_id) is Ok,
    ensures
        is_settleable(hold, authority, input, now),
        line_sum(lines_of(input.lines@)) <= hold.max_amount,
        0 <= i < input.lines@.len() ==> is_line(lines_of(input.lines@)[i]) && names(
            hold.beneficiaries->0,
            lines_of(input.lines@)[i].user_id,
            lines_of(input.lines@)[i].role,
        ),
{
    let payer = input.payer_user_id@;
    let lines = lines_of(input.lines@);
    let plan = hold.beneficiaries->0;
    lemma_tally_tells_what_lines_pay(lines, caps_of(plan), payer, Rules::Hold, payer);
    if 0 <= i < lines.len() {
        crate::finance::settlement_laws::law_only_lines_within_their_plan_are_taken(
            lines,
            plan,
            payer,
            Rules::Hold,
            i,
        );
    }
}

// ---------------------------------------------------------------- releasing and showing

/// A first release of an active hold without a project is taken exactly where its authority asks,
/// or its payer before a run started or once the hold is past, for a short reason; and the wallet
/// can take the funds back.
pub proof fn law_an_active_hold_can_be_released(
    books: Books,
    caller: Seq<char>,
    input: ReleaseHoldInput,
    now: i64,
    journal_id: Seq<char>,
    hold: HoldState,
)
    requires
        lookup(books.links, "FinanceRelease::"@ + caller + "::"@ + input.release_id@) is None,
        lookup(books.holds, input.hold_id@) == Some(hold),
        hold.project_id.len() == 0,
        0 <= hold.withdrawable_amount <= hold.max_amount <= i64::MAX,
        ({
            let w = wallet_of(books.wallets, hold.payer_user_id);
            &&& w.balance matches Some(balance) && balance + hold.max_amount <= i64::MAX
            &&& 0 <= w.withdrawable && w.withdrawable + hold.max_amount <= i64::MAX
            &&& w.held >= hold.max_amount
        }),
    ensures
        (hold_released(books, caller, input, now, journal_id) is Ok) == {
            &&& is_finance_id(input.hold_id@)
            &&& is_finance_id(input.payer_user_id@)
            &&& is_finance_id(input.release_id@)
            &&& encode_utf8(input.reason@).len() <= 256
            &&& hold.status == "open"@ || hold.status == "running"@
            &&& hold.payer_user_id == input.payer_user_id@
            &&& hold.max_amount > 0
            &&& caller == hold.settlement_authority || caller == hold.payer_user_id && (hold.status
                == "open"@ || hold.expires_at <= now)
        },
        hold_released(books, caller, input, now, journal_id) matches Ok((_, answer))
            ==> answer.applied,
{
}

/// A hold is shown exactly to its payer, its settlement authority and everyone in its plan.
pub proof fn law_a_hold_is_shown_to_its_parties(
    books: Books,
    caller: Seq<char>,
    input: GetHoldInput,
    hold: HoldState,
)
    ensures
        (hold_shown(books, caller, input) == Ok::<HoldState, Seq<char>>(hold)) == {
            &&& is_finance_id(input.hold_id@)
            &&& lookup(books.holds, input.hold_id@) == Some(hold)
            &&& input.payer_user_id@.len() == 0 || input.payer_user_id@ == hold.payer_user_id
            &&& caller == hold.payer_user_id || caller == hold.settlement_authority || (
            hold.beneficiaries matches Some(plan) && exists|i: int|
                0 <= i < plan.len() && (#[trigger] plan[i]).user_id == caller)
        },
{
}

} // verus!
