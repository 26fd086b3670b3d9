//! Which lines a settlement takes, and when those whom they pay can be paid.
use vstd::prelude::*;

use crate::finance::audit_laws::line_sum;
use crate::finance::earning_laws::paid_to;
use crate::finance::hold_laws::{
    lemma_amount_of_last, lemma_each_earns_their_amount, lemma_tally_tells_what_lines_pay,
};
use crate::finance::ids::{is_finance_id, Beneficiary};
use crate::finance::ledger::{wallet_of, Line, Wallet};
use crate::finance::settlement::{
    all_credited, amount_in, cap_key, caps_of, law_a_tally_adds_up, tally_of, Rules,
};
use crate::table::{distinct, law_lookup_after_store, lemma_lookup_row, lookup, Rows};
use vstd::utf8::encode_utf8;

verus! {

broadcast use law_lookup_after_store;

/// What lines pay to a user in a role.
pub open spec fn role_sum(lines: Seq<Line>, user: Seq<char>, role: Seq<char>) -> int
    decreases lines.len(),
{
    if lines.len() == 0 {
        0
    } else {
        role_sum(lines.drop_last(), user, role) + if lines.last().user_id == user
            && lines.last().role == role {
            lines.last().amount
        } else {
            0
        }
    }
}

/// Whether a line pays something to somebody, for a short reason.
pub open spec fn is_line(line: Line) -> bool {
    &&& line.amount > 0
    &&& is_finance_id(line.user_id)
    &&& is_finance_id(line.role)
    &&& encode_utf8(line.source_ref).len() <= 256
}

/// Whether a plan names a user in a role.
pub open spec fn names(plan: Seq<Beneficiary>, user: Seq<char>, role: Seq<char>) -> bool {
    exists|j: int|
        0 <= j < plan.len() && (#[trigger] plan[j]).user_id == user && plan[j].role == role
}

/// Whether lines pay nobody more in a role than a plan allows.
pub open spec fn within_caps(lines: Seq<Line>, plan: Seq<Beneficiary>) -> bool {
    forall|j: int|
        0 <= j < plan.len() ==> role_sum(lines, (#[trigger] plan[j]).user_id, plan[j].role)
            <= plan[j].max_amount
}

/// Whether the caps of a plan fit in 64 bits.
pub open spec fn caps_fit(plan: Seq<Beneficiary>) -> bool {
    forall|j: int|
        0 <= j < plan.len() ==> i64::MIN <= (#[trigger] plan[j]).max_amount <= i64::MAX
}

/// The key of a user in a role is that of no other.
pub proof fn law_roles_have_their_own_keys(
    user: Seq<char>,
    role: Seq<char>,
    other: Seq<char>,
    another: Seq<char>,
)
    requires
        is_finance_id(user),
        is_finance_id(role),
        cap_key(user, role) == cap_key(other, another),
    ensures
        user == other,
        role == another,
{
    reveal_strlit("|");
    let a = cap_key(user, role);
    let b = cap_key(other, another);
    assert("|"@.len() == 1 && "|"@[0] == '|');
    assert(a[user.len() as int] == '|');
    assert(b[other.len() as int] == '|');
    if other.len() < user.len() {
        assert(a[other.len() as int] == user[other.len() as int]);
    } else if other.len() > user.len() {
        let head = user + "|"@;
        assert(b.len() == other.len() + 1 + another.len());
        assert(a == head + role);
        assert(a[other.len() as int] == role[other.len() - head.len()]);
    }
    assert(user =~= a.subrange(0, user.len() as int));
    assert(other =~= b.subrange(0, other.len() as int));
    assert(role =~= a.subrange(user.len() as int + 1, a.len() as int));
    assert(another =~= b.subrange(other.len() as int + 1, b.len() as int));
}

/// The cap of a user in a role is one that the plan gives them.
pub proof fn lemma_caps(plan: Seq<Beneficiary>, user: Seq<char>, role: Seq<char>)
    requires
        is_finance_id(user),
        is_finance_id(role),
    ensures
        (lookup(caps_of(plan), cap_key(user, role)) is Some) == names(plan, user, role),
        names(plan, user, role) ==> exists|j: int|
            0 <= j < plan.len() && (#[trigger] plan[j]).user_id == user && plan[j].role == role
                && lookup(caps_of(plan), cap_key(user, role)) == Some(plan[j].max_amount as i64),
    decreases plan.len(),
{
    if plan.len() > 0 {
        let front = plan.drop_last();
        let last = plan.last();
        lemma_caps(front, user, role);
        if cap_key(last.user_id, last.role) == cap_key(user, role) {
            law_roles_have_their_own_keys(user, role, last.user_id, last.role);
            assert(plan[plan.len() - 1].user_id == user);
        } else {
            if names(front, user, role) {
                let j = choose|j: int|
                    0 <= j < front.len() && (#[trigger] front[j]).user_id == user && front[j].role
                        == role && lookup(caps_of(front), cap_key(user, role)) == Some(
                        front[j].max_amount as i64,
                    );
                assert(plan[j] == front[j]);
            }
            if names(plan, user, role) {
                let j = choose|j: int|
                    0 <= j < plan.len() && (#[trigger] plan[j]).user_id == user && plan[j].role
                        == role;
                if j < front.len() {
                    assert(front[j] == plan[j]);
                }
            }
        }
    }
}

/// What a tally has under a role of a user is what the lines pay them in it.
pub proof fn lemma_roles_tallied(
    lines: Seq<Line>,
    caps: Rows<i64>,
    payer: Seq<char>,
    rules: Rules,
    user: Seq<char>,
    role: Seq<char>,
)
    requires
        tally_of(lines, caps, payer, rules) is Ok,
        is_finance_id(user),
        is_finance_id(role),
    ensures
        amount_in(tally_of(lines, caps, payer, rules)->Ok_0.roles, cap_key(user, role)) == role_sum(
            lines,
            user,
            role,
        ),
        0 <= role_sum(lines, user, role) <= line_sum(lines) <= i64::MAX,
    decreases lines.len(),
{
    if lines.len() > 0 {
        let front = lines.drop_last();
        let last = lines.last();
        lemma_roles_tallied(front, caps, payer, rules, user, role);
        lemma_roles_tallied(front, caps, payer, rules, last.user_id, last.role);
        lemma_tally_tells_what_lines_pay(front, caps, payer, rules, user);
        if cap_key(last.user_id, last.role) == cap_key(user, role) {
            law_roles_have_their_own_keys(user, role, last.user_id, last.role);
        }
    }
}

/// Lines are taken where each pays something to one whom the plan names in that role, none pays the
/// payer unless the rules let it, nobody gets more in a role than the plan allows unless the rules
/// do not cap roles, and their sum can be held in 64 bits.
pub proof fn law_lines_within_their_plan_are_taken(
    lines: Seq<Line>,
    plan: Seq<Beneficiary>,
    payer: Seq<char>,
    rules: Rules,
)
    requires
        caps_fit(plan),
        forall|i: int|
            0 <= i < lines.len() ==> is_line(#[trigger] lines[i]) && names(
                plan,
                lines[i].user_id,
                lines[i].role,
            ) && (rules is Hold || lines[i].user_id != payer),
        rules is Debit || within_caps(lines, plan),
        line_sum(lines) <= i64::MAX,
    ensures
        tally_of(lines, caps_of(plan), payer, rules) is Ok,
    decreases lines.len(),
{
    if lines.len() > 0 {
        let front = lines.drop_last();
        let last = lines.last();
        assert(is_line(lines[lines.len() - 1]));
        assert forall|i: int| 0 <= i < front.len() implies is_line(#[trigger] front[i]) && names(
            plan,
            front[i].user_id,
            front[i].role,
        ) && (rules is Hold || front[i].user_id != payer) by {
            assert(front[i] == lines[i]);
        }
        if !(rules is Debit) {
            assert forall|j: int| 0 <= j < plan.len() implies role_sum(
                front,
                (#[trigger] plan[j]).user_id,
                plan[j].role,
            ) <= plan[j].max_amount by {
                assert(role_sum(lines, plan[j].user_id, plan[j].role) <= plan[j].max_amount);
            }
        }
        law_lines_within_their_plan_are_taken(front, plan, payer, rules);
        lemma_tally_tells_what_lines_pay(front, caps_of(plan), payer, rules, payer);
        lemma_caps(plan, last.user_id, last.role);
        lemma_roles_tallied(front, caps_of(plan), payer, rules, last.user_id, last.role);
        let j = choose|j: int|
            0 <= j < plan.len() && (#[trigger] plan[j]).user_id == last.user_id && plan[j].role
                == last.role && lookup(caps_of(plan), cap_key(last.user_id, last.role)) == Some(
                plan[j].max_amount as i64,
            );
        if !(rules is Debit) {
            assert(role_sum(lines, plan[j].user_id, plan[j].role) <= plan[j].max_amount);
        }
    }
}

/// Lines that are taken each pay something to one whom the plan names in that role; none pays the
/// payer unless the rules let it; and where roles are capped, nobody gets more in a role than the
/// plan allows.
pub proof fn law_only_lines_within_their_plan_are_taken(
    lines: Seq<Line>,
    plan: Seq<Beneficiary>,
    payer: Seq<char>,
    rules: Rules,
    i: int,
)
    requires
        caps_fit(plan),
        tally_of(lines, caps_of(plan), payer, rules) is Ok,
        0 <= i < lines.len(),
    ensures
        is_line(lines[i]),
        names(plan, lines[i].user_id, lines[i].role),
        rules is Hold || lines[i].user_id != payer,
        rules is Debit || exists|j: int|
            0 <= j < plan.len() && (#[trigger] plan[j]).user_id == lines[i].user_id && plan[j].role
                == lines[i].role && role_sum(lines, lines[i].user_id, lines[i].role)
                <= plan[j].max_amount,
    decreases lines.len(),
{
    let front = lines.drop_last();
    let last = lines.last();
    lemma_caps(plan, last.user_id, last.role);
    lemma_roles_tallied(lines, caps_of(plan), payer, rules, last.user_id, last.role);
    lemma_roles_tallied(front, caps_of(plan), payer, rules, last.user_id, last.role);
    let j = choose|j: int|
        0 <= j < plan.len() && (#[trigger] plan[j]).user_id == last.user_id && plan[j].role
            == last.role && lookup(caps_of(plan), cap_key(last.user_id, last.role)) == Some(
            plan[j].max_amount as i64,
        );
    if i < front.len() {
        assert(front[i] == lines[i]);
        law_only_lines_within_their_plan_are_taken(front, plan, payer, rules, i);
        if !(rules is Debit) && !(last.user_id == lines[i].user_id && last.role == lines[i].role) {
            let k = choose|k: int|
                0 <= k < plan.len() && (#[trigger] plan[k]).user_id == front[i].user_id
                    && plan[k].role == front[i].role && role_sum(
                    front,
                    front[i].user_id,
                    front[i].role,
                ) <= plan[k].max_amount;
            assert(role_sum(lines, lines[i].user_id, lines[i].role) <= plan[k].max_amount);
        } else if !(rules is Debit) {
            assert(role_sum(lines, lines[i].user_id, lines[i].role) <= plan[j].max_amount);
        }
    } else if !(rules is Debit) {
        assert(role_sum(lines, lines[i].user_id, lines[i].role) <= plan[j].max_amount);
    }
}

// ---------------------------------------------------------------- paying

/// Whether a wallet can earn an amount.
pub open spec fn can_earn(w: Wallet, amount: int) -> bool {
    &&& w.balance matches Some(balance) && balance + amount <= i64::MAX
    &&& 0 <= w.earned && w.earned + amount <= i64::MAX
    &&& 0 <= w.withdrawable && w.withdrawable + amount <= i64::MAX
    &&& w.debt >= 0
}

/// Users who can earn their amounts are all credited.
pub proof fn law_everyone_who_can_earn_is_credited(
    wallets: Rows<Wallet>,
    users: Rows<i64>,
    missing: Seq<char>,
)
    requires
        distinct(users),
        forall|i: int|
            0 <= i < users.len() ==> (#[trigger] users[i]).1 > 0 && can_earn(
                wallet_of(wallets, users[i].0),
                users[i].1 as int,
            ),
    ensures
        all_credited(wallets, users, missing) is Ok,
    decreases users.len(),
{
    if users.len() > 0 {
        let front = users.drop_last();
        let (user, amount) = users.last();
        assert(users[users.len() - 1].1 > 0);
        assert forall|i: int| 0 <= i < front.len() implies (#[trigger] front[i]).1 > 0 && can_earn(
            wallet_of(wallets, front[i].0),
            front[i].1 as int,
        ) by {
            assert(front[i] == users[i]);
        }
        lemma_amount_of_last(users, user);
        law_everyone_who_can_earn_is_credited(wallets, front, missing);
        let before = all_credited(wallets, front, missing)->Ok_0;
        lemma_each_earns_their_amount(wallets, front, missing, before, user);
    }
}

/// Where everyone whom lines pay can earn what they get, the tally of the lines is credited.
pub proof fn lemma_lines_can_be_paid(
    wallets: Rows<Wallet>,
    lines: Seq<Line>,
    caps: Rows<i64>,
    payer: Seq<char>,
    rules: Rules,
)
    requires
        tally_of(lines, caps, payer, rules) is Ok,
        forall|user: Seq<char>|
            #[trigger] paid_to(lines, user) > 0 ==> can_earn(
                wallet_of(wallets, user),
                paid_to(lines, user),
            ),
    ensures
        all_credited(
            wallets,
            tally_of(lines, caps, payer, rules)->Ok_0.users,
            rules.missing(),
        ) is Ok,
{
    let tally = tally_of(lines, caps, payer, rules)->Ok_0;
    law_a_tally_adds_up(lines, caps, payer, rules);
    assert forall|i: int| 0 <= i < tally.users.len() implies (#[trigger] tally.users[i]).1 > 0
        && can_earn(wallet_of(wallets, tally.users[i].0), tally.users[i].1 as int) by {
        let user = tally.users[i].0;
        lemma_lookup_row(tally.users, i);
        lemma_tally_tells_what_lines_pay(lines, caps, payer, rules, user);
    }
    law_everyone_who_can_earn_is_credited(wallets, tally.users, rules.missing());
}

} // verus!
