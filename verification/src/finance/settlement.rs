//! Settlement lines: who may be paid what, and the wallets after the payment.
use vstd::prelude::*;
use vstd::utf8::encode_utf8;

use crate::finance::ids::{
    beneficiaries_of, is_finance_id, valid_finance_id, Beneficiary, HoldBeneficiaryInput,
};
use crate::finance::journal::{add_posting, gross_posting, posting, write_posting};
use crate::finance::ledger::{
    lines_of, wallet_in, wallet_of, Line, SettlementLine, Wallet,
};
use crate::json::{items_of, Json, Tree};
use crate::table::{
    distinct, law_lookup_after_store, law_store_keeps_keys_distinct, law_total_after_store, lookup,
    stored, total, Rows, Table,
};
use crate::text::{join3, same, texts};

verus! {

broadcast use {vstd::string::group_string_axioms, law_lookup_after_store};

/// What the lines settle: a hold, a pool reservation, or a live debit of a pool.
#[derive(Clone, Copy)]
pub enum Rules {
    Hold,
    Reservation,
    Debit,
}

impl Rules {
    /// Whether each role has a cap of its own.
    pub open spec fn caps_roles(self) -> bool {
        !(self is Debit)
    }

    /// Whether the payer may not be paid.
    pub open spec fn refuses_payer(self) -> bool {
        !(self is Hold)
    }

    /// The refusal of a malformed line.
    pub open spec fn invalid_line(self) -> Seq<char> {
        if self is Debit {
            "invalid debit line"@
        } else {
            "invalid settlement line"@
        }
    }

    /// The refusal of a line that pays the payer.
    pub open spec fn payer_line(self) -> Seq<char> {
        if self is Debit {
            "payer cannot be a debit beneficiary"@
        } else {
            "payer cannot be a settlement beneficiary"@
        }
    }

    /// The refusal of a line whose beneficiary is in no plan.
    pub open spec fn unauthorized(self) -> Seq<char> {
        match self {
            Rules::Hold => "settlement beneficiary role not authorized by hold"@,
            Rules::Reservation => "settlement beneficiary role not authorized by quote"@,
            Rules::Debit => "debit beneficiary role not authorized by quote"@,
        }
    }

    /// The refusal of lines whose sum does not fit.
    pub open spec fn overflow(self) -> Seq<char> {
        if self is Debit {
            "debit amount overflow"@
        } else {
            "settlement amount overflow"@
        }
    }

    /// The refusal of a beneficiary without an account.
    pub open spec fn missing(self) -> Seq<char> {
        if self is Debit {
            "debit beneficiary not found"@
        } else {
            "settlement beneficiary not found"@
        }
    }
}

// ---------------------------------------------------------------- plans

/// The key of a beneficiary in a role.
pub open spec fn cap_key(user: Seq<char>, role: Seq<char>) -> Seq<char> {
    user + "|"@ + role
}

/// Whether every beneficiary of a plan has a user, a role and, where roles are capped, a
/// positive cap.
pub open spec fn is_plan(plan: Seq<Beneficiary>, capped: bool) -> bool {
    forall|i: int|
        0 <= i < plan.len() ==> {
            &&& (#[trigger] plan[i]).user_id.len() > 0
            &&& plan[i].role.len() > 0
            &&& capped ==> plan[i].max_amount > 0
        }
}

/// The caps of a plan; a role that stands in it twice has the later cap.
pub open spec fn caps_of(plan: Seq<Beneficiary>) -> Rows<i64>
    decreases plan.len(),
{
    if plan.len() == 0 {
        Seq::empty()
    } else {
        let last = plan.last();
        stored(caps_of(plan.drop_last()), cap_key(last.user_id, last.role), last.max_amount as i64)
    }
}

/// The caps of a plan, or `None` where some beneficiary of it is malformed.
pub fn plan_caps(plan: &Vec<HoldBeneficiaryInput>, capped: bool) -> (r: Option<Table<i64>>)
    ensures
        match r {
            Some(caps) => is_plan(beneficiaries_of(plan@), capped) && caps@ == caps_of(
                beneficiaries_of(plan@),
            ),
            None => !is_plan(beneficiaries_of(plan@), capped),
        },
{
    let mut caps: Table<i64> = Table::new();
    let ghost list = beneficiaries_of(plan@);
    assert(list.subrange(0, 0) =~= Seq::empty());
    let mut i: usize = 0;
    while i < plan.len()
        invariant
            i <= plan@.len(),
            list == beneficiaries_of(plan@),
            caps@ == caps_of(list.subrange(0, i as int)),
            forall|j: int|
                0 <= j < i ==> {
                    &&& (#[trigger] list[j]).user_id.len() > 0
                    &&& list[j].role.len() > 0
                    &&& capped ==> list[j].max_amount > 0
                },
        decreases plan.len() - i,
    {
        let b = &plan[i];
        assert(list[i as int] == b@);
        if b.user_id.as_str().is_empty() || b.role.as_str().is_empty() || (capped && b.max_amount
            <= 0) {
            return None;
        }
        let ghost upto = list.subrange(0, i + 1);
        assert(upto.drop_last() =~= list.subrange(0, i as int));
        assert(upto.last() == b@);
        let key = join3(b.user_id.as_str(), "|", b.role.as_str());
        caps.put(key.as_str(), b.max_amount);
        i = i + 1;
    }
    assert(list.subrange(0, list.len() as int) =~= list);
    Some(caps)
}

/// The beneficiary that a plan row of a quote names; what is missing reads as empty.
pub open spec fn row_beneficiary(row: Tree) -> Beneficiary {
    Beneficiary {
        user_id: row.text_or_empty("userId"@),
        role: row.text_or_empty("role"@),
        max_amount: match row.number("maxAmount"@) {
            Some(n) => n as int,
            None => 0,
        },
    }
}

/// The plan of a quote.
pub open spec fn quote_plan(rows: Seq<Tree>) -> Seq<Beneficiary> {
    rows.map_values(|row: Tree| row_beneficiary(row))
}

/// Read the plan of a quote.
pub fn read_quote_plan(rows: &Vec<Json>) -> (r: Vec<HoldBeneficiaryInput>)
    ensures
        beneficiaries_of(r@) == quote_plan(items_of(rows@)),
{
    let mut out: Vec<HoldBeneficiaryInput> = Vec::new();
    let mut i: usize = 0;
    while i < rows.len()
        invariant
            i <= rows@.len(),
            out@.len() == i,
            forall|j: int| 0 <= j < i ==> (#[trigger] out@[j])@ == row_beneficiary(rows@[j]@),
        decreases rows.len() - i,
    {
        let row = &rows[i];
        out.push(
            HoldBeneficiaryInput {
                user_id: row.text_or_empty("userId").to_owned(),
                role: row.text_or_empty("role").to_owned(),
                max_amount: match row.number("maxAmount") {
                    Some(n) => n,
                    None => 0,
                },
            },
        );
        i = i + 1;
    }
    assert(beneficiaries_of(out@) =~= quote_plan(items_of(rows@)));
    out
}

// ---------------------------------------------------------------- tallies

/// What lines add up to: in all, for each beneficiary in a role, and for each user.
pub struct Tally {
    pub sum: int,
    pub roles: Rows<i64>,
    pub users: Rows<i64>,
}

/// The amount under a key; zero where there is none.
pub open spec fn amount_in(rows: Rows<i64>, key: Seq<char>) -> i64 {
    match lookup(rows, key) {
        Some(n) => n,
        None => 0,
    }
}

/// The tally with one more line, or the refusal of that line.
pub open spec fn tallied(
    tally: Tally,
    line: Line,
    caps: Rows<i64>,
    payer: Seq<char>,
    rules: Rules,
) -> Result<Tally, Seq<char>> {
    let key = cap_key(line.user_id, line.role);
    if line.amount <= 0 || !is_finance_id(line.user_id) || !is_finance_id(line.role)
        || encode_utf8(line.source_ref).len() > 256 {
        Err(rules.invalid_line())
    } else if rules.refuses_payer() && line.user_id == payer {
        Err(rules.payer_line())
    } else if lookup(caps, key) is None {
        Err(rules.unauthorized())
    } else if tally.sum + line.amount > i64::MAX {
        Err(rules.overflow())
    } else if rules.caps_roles() && amount_in(tally.roles, key) + line.amount > lookup(caps, key)->0 {
        Err("settlement exceeds beneficiary role cap"@)
    } else {
        Ok(
            Tally {
                sum: tally.sum + line.amount,
                roles: stored(
                    tally.roles,
                    key,
                    (amount_in(tally.roles, key) + line.amount) as i64,
                ),
                users: stored(
                    tally.users,
                    line.user_id,
                    (amount_in(tally.users, line.user_id) + line.amount) as i64,
                ),
            },
        )
    }
}

/// The tally of lines, or the refusal of the first line that breaks the rules.
pub open spec fn tally_of(
    lines: Seq<Line>,
    caps: Rows<i64>,
    payer: Seq<char>,
    rules: Rules,
) -> Result<Tally, Seq<char>>
    decreases lines.len(),
{
    if lines.len() == 0 {
        Ok(Tally { sum: 0, roles: Seq::empty(), users: Seq::empty() })
    } else {
        match tally_of(lines.drop_last(), caps, payer, rules) {
            Ok(tally) => tallied(tally, lines.last(), caps, payer, rules),
            Err(e) => Err(e),
        }
    }
}

/// The figure of an amount row: the amount.
pub open spec fn plain_amount() -> spec_fn(Seq<char>, i64) -> int {
    |key: Seq<char>, n: i64| n as int
}

/// Whether the rows hold amounts from one to `sum` that add up to `sum`.
pub open spec fn adds_up(rows: Rows<i64>, sum: int) -> bool {
    &&& total(rows, plain_amount()) == sum
    &&& distinct(rows)
    &&& forall|key: Seq<char>|
        #![trigger lookup(rows, key)]
        lookup(rows, key) matches Some(n) ==> 0 < n <= sum
}

proof fn lemma_adds_up(rows: Rows<i64>, sum: int, key: Seq<char>, amount: int)
    requires
        adds_up(rows, sum),
        amount > 0,
        0 <= sum,
        sum + amount <= i64::MAX,
    ensures
        adds_up(stored(rows, key, (amount_in(rows, key) + amount) as i64), sum + amount),
        0 <= amount_in(rows, key) <= sum,
{
    let next = (amount_in(rows, key) + amount) as i64;
    law_total_after_store(rows, key, next, plain_amount());
    law_store_keeps_keys_distinct(rows, key, next);
}

/// The role amounts of a tally, and the user amounts, each add up to its sum; each is
/// positive, and no user and no role occurs twice. With capped roles no role is above its
/// cap.
pub proof fn law_a_tally_adds_up(lines: Seq<Line>, caps: Rows<i64>, payer: Seq<char>, rules: Rules)
    ensures
        tally_of(lines, caps, payer, rules) matches Ok(tally) ==> {
            &&& 0 <= tally.sum <= i64::MAX
            &&& adds_up(tally.roles, tally.sum)
            &&& adds_up(tally.users, tally.sum)
            &&& rules.caps_roles() ==> forall|key: Seq<char>|
                #![trigger lookup(tally.roles, key)]
                lookup(tally.roles, key) matches Some(n) ==> {
                    &&& lookup(caps, key) is Some
                    &&& n <= lookup(caps, key)->0
                }
        },
    decreases lines.len(),
{
    if lines.len() > 0 {
        law_a_tally_adds_up(lines.drop_last(), caps, payer, rules);
        if let Ok(tally) = tally_of(lines.drop_last(), caps, payer, rules) {
            let line = lines.last();
            if tallied(tally, line, caps, payer, rules) is Ok {
                let key = cap_key(line.user_id, line.role);
                lemma_adds_up(tally.roles, tally.sum, key, line.amount);
                lemma_adds_up(tally.users, tally.sum, line.user_id, line.amount);
            }
        }
    }
}

/// What lines add up to.
pub struct Tallied {
    pub sum: i64,
    pub roles: Table<i64>,
    pub users: Table<i64>,
}

impl View for Tallied {
    type V = Tally;

    open spec fn view(&self) -> Tally {
        Tally { sum: self.sum as int, roles: self.roles@, users: self.users@ }
    }
}

fn amount_at(rows: &Table<i64>, key: &str) -> (r: i64)
    ensures
        r == amount_in(rows@, key@),
{
    match rows.get(key) {
        Some(n) => *n,
        None => 0,
    }
}

fn refusal(text: &str) -> (r: String)
    ensures
        r@ == text@,
{
    text.to_owned()
}

/// Add up settlement lines under the rules.
pub fn tally_lines(
    lines: &Vec<SettlementLine>,
    caps: &Table<i64>,
    payer: &str,
    rules: Rules,
) -> (r: Result<Tallied, String>)
    ensures
        match r {
            Ok(tally) => tally_of(lines_of(lines@), caps@, payer@, rules) == Ok::<Tally, Seq<char>>(
                tally@,
            ),
            Err(e) => tally_of(lines_of(lines@), caps@, payer@, rules) == Err::<Tally, Seq<char>>(
                e@,
            ),
        },
{
    let mut tally = Tallied { sum: 0, roles: Table::new(), users: Table::new() };
    let ghost list = lines_of(lines@);
    assert(list.subrange(0, 0) =~= Seq::empty());
    let mut i: usize = 0;
    while i < lines.len()
        invariant
            i <= lines@.len(),
            list == lines_of(lines@),
            tally_of(list.subrange(0, i as int), caps@, payer@, rules) == Ok::<Tally, Seq<char>>(
                tally@,
            ),
        decreases lines.len() - i,
    {
        let line = &lines[i];
        let ghost upto = list.subrange(0, i + 1);
        proof {
            assert(upto.drop_last() =~= list.subrange(0, i as int));
            assert(upto.last() == line@);
            law_a_tally_adds_up(list.subrange(0, i as int), caps@, payer@, rules);
            lemma_refused_later(list, i + 1, caps@, payer@, rules);
        }
        if line.amount <= 0 || !valid_finance_id(line.user_id.as_str()) || !valid_finance_id(
            line.role.as_str(),
        ) || line.source_ref.as_str().as_bytes().len() > 256 {
            return Err(
                match rules {
                    Rules::Debit => refusal("invalid debit line"),
                    _ => refusal("invalid settlement line"),
                },
            );
        }
        if same(line.user_id.as_str(), payer) {
            match rules {
                Rules::Hold => {},
                Rules::Reservation => {
                    return Err(refusal("payer cannot be a settlement beneficiary"));
                },
                Rules::Debit => {
                    return Err(refusal("payer cannot be a debit beneficiary"));
                },
            }
        }
        let key = join3(line.user_id.as_str(), "|", line.role.as_str());
        let cap: i64 = match caps.get(key.as_str()) {
            Some(cap) => *cap,
            None => {
                return Err(
                    match rules {
                        Rules::Hold => refusal("settlement beneficiary role not authorized by hold"),
                        Rules::Reservation => refusal(
                            "settlement beneficiary role not authorized by quote",
                        ),
                        Rules::Debit => refusal("debit beneficiary role not authorized by quote"),
                    },
                );
            },
        };
        let sum: i64 = match tally.sum.checked_add(line.amount) {
            Some(sum) => sum,
            None => {
                return Err(
                    match rules {
                        Rules::Debit => refusal("debit amount overflow"),
                        _ => refusal("settlement amount overflow"),
                    },
                );
            },
        };
        proof {
            lemma_adds_up(tally.roles@, tally.sum as int, key@, line.amount as int);
            lemma_adds_up(tally.users@, tally.sum as int, line.user_id@, line.amount as int);
        }
        let role_total: i64 = amount_at(&tally.roles, key.as_str()) + line.amount;
        let over = role_total > cap;
        match rules {
            Rules::Debit => {},
            _ => {
                if over {
                    return Err(refusal("settlement exceeds beneficiary role cap"));
                }
            },
        }
        let user_total: i64 = amount_at(&tally.users, line.user_id.as_str()) + line.amount;
        tally.roles.put(key.as_str(), role_total);
        tally.users.put(line.user_id.as_str(), user_total);
        tally.sum = sum;
        i = i + 1;
    }
    assert(list.subrange(0, list.len() as int) =~= list);
    Ok(tally)
}

/// A refusal of the first `n` lines is the refusal of all of them.
proof fn lemma_refused_later(
    lines: Seq<Line>,
    n: int,
    caps: Rows<i64>,
    payer: Seq<char>,
    rules: Rules,
)
    requires
        0 <= n <= lines.len(),
    ensures
        tally_of(lines.subrange(0, n), caps, payer, rules) matches Err(e) ==> tally_of(
            lines,
            caps,
            payer,
            rules,
        ) == Err::<Tally, Seq<char>>(e),
    decreases lines.len() - n,
{
    if n == lines.len() {
        assert(lines.subrange(0, n) =~= lines);
    } else {
        assert(lines.subrange(0, n + 1).drop_last() =~= lines.subrange(0, n));
        lemma_refused_later(lines, n + 1, caps, payer, rules);
    }
}

// ---------------------------------------------------------------- crediting

/// How much of an amount goes to the user's debt.
pub open spec fn repaid(w: Wallet, amount: int) -> int {
    if w.debt <= amount {
        w.debt as int
    } else {
        amount
    }
}

/// A wallet that earns `amount`: the debt is repaid first, and the rest is withdrawable.
pub open spec fn credited(w: Wallet, amount: int, missing: Seq<char>) -> Result<Wallet, Seq<char>> {
    let credit = amount - repaid(w, amount);
    if w.earned < 0 {
        Err("invalid finance counter"@)
    } else if w.earned + amount > i64::MAX {
        Err("finance counter overflow"@)
    } else if w.balance is None {
        Err(missing)
    } else if w.debt < 0 {
        Err("invalid wallet debt"@)
    } else if w.balance->0 + credit > i64::MAX {
        Err("beneficiary balance overflow"@)
    } else if w.withdrawable < 0 {
        Err("invalid finance counter"@)
    } else if w.withdrawable + credit > i64::MAX {
        Err("withdrawable earnings overflow"@)
    } else {
        Ok(
            Wallet {
                balance: Some((w.balance->0 + credit) as i64),
                earned: (w.earned + amount) as i64,
                debt: (w.debt - repaid(w, amount)) as i64,
                withdrawable: (w.withdrawable + credit) as i64,
                ..w
            },
        )
    }
}

/// The wallets after every user of the rows has earned their amount.
pub open spec fn all_credited(
    wallets: Rows<Wallet>,
    users: Rows<i64>,
    missing: Seq<char>,
) -> Result<Rows<Wallet>, Seq<char>>
    decreases users.len(),
{
    if users.len() == 0 {
        Ok(wallets)
    } else {
        match all_credited(wallets, users.drop_last(), missing) {
            Err(e) => Err(e),
            Ok(before) => {
                let (user, amount) = users.last();
                match credited(wallet_of(before, user), amount as int, missing) {
                    Err(e) => Err(e),
                    Ok(w) => Ok(stored(before, user, w)),
                }
            },
        }
    }
}

/// Credit one wallet.
pub fn credit_wallet(w: Wallet, amount: i64, missing: &str) -> (r: Result<Wallet, String>)
    requires
        amount >= 0,
    ensures
        match r {
            Ok(next) => credited(w, amount as int, missing@) == Ok::<Wallet, Seq<char>>(next),
            Err(e) => credited(w, amount as int, missing@) == Err::<Wallet, Seq<char>>(e@),
        },
{
    if w.earned < 0 {
        return Err("invalid finance counter".to_owned());
    }
    let earned: i64 = match w.earned.checked_add(amount) {
        Some(v) => v,
        None => {
            return Err("finance counter overflow".to_owned());
        },
    };
    let balance: i64 = match w.balance {
        Some(balance) => balance,
        None => {
            return Err(missing.to_owned());
        },
    };
    if w.debt < 0 {
        return Err("invalid wallet debt".to_owned());
    }
    let paid: i64 = if w.debt <= amount {
        w.debt
    } else {
        amount
    };
    let credit: i64 = amount - paid;
    let balance: i64 = match balance.checked_add(credit) {
        Some(v) => v,
        None => {
            return Err("beneficiary balance overflow".to_owned());
        },
    };
    if w.withdrawable < 0 {
        return Err("invalid finance counter".to_owned());
    }
    let withdrawable: i64 = match w.withdrawable.checked_add(credit) {
        Some(v) => v,
        None => {
            return Err("withdrawable earnings overflow".to_owned());
        },
    };
    Ok(Wallet { balance: Some(balance), earned, debt: w.debt - paid, withdrawable, ..w })
}

/// Credit every user of the rows. After a refusal the wallets given are of no use.
pub fn credit_users(wallets: &mut Table<Wallet>, users: &Table<i64>, missing: &str) -> (r: Result<
    (),
    String,
>)
    requires
        forall|i: int| 0 <= i < users@.len() ==> (#[trigger] users@[i]).1 >= 0,
    ensures
        match r {
            Ok(_) => all_credited(old(wallets)@, users@, missing@) == Ok::<Rows<Wallet>, Seq<char>>(
                final(wallets)@,
            ),
            Err(e) => all_credited(old(wallets)@, users@, missing@) == Err::<
                Rows<Wallet>,
                Seq<char>,
            >(e@),
        },
{
    let ghost start = wallets@;
    let mut i: usize = 0;
    assert(users@.subrange(0, 0) =~= Seq::empty());
    while i < users.len()
        invariant
            i <= users@.len(),
            start == old(wallets)@,
            forall|j: int| 0 <= j < users@.len() ==> (#[trigger] users@[j]).1 >= 0,
            all_credited(start, users@.subrange(0, i as int), missing@) == Ok::<
                Rows<Wallet>,
                Seq<char>,
            >(wallets@),
        decreases users@.len() - i,
    {
        let ghost upto = users@.subrange(0, i + 1);
        proof {
            assert(upto.drop_last() =~= users@.subrange(0, i as int));
            assert(upto.last() == users@[i as int]);
            lemma_credit_refused_later(start, users@, i + 1, missing@);
        }
        let user = users.key_at(i);
        let amount: i64 = *users.record_at(i);
        let w = wallet_in(&*wallets, user);
        match credit_wallet(w, amount, missing) {
            Err(e) => {
                return Err(e);
            },
            Ok(next) => {
                wallets.put(user, next);
            },
        }
        i = i + 1;
    }
    assert(users@.subrange(0, users@.len() as int) =~= users@);
    Ok(())
}

proof fn lemma_credit_refused_later(
    wallets: Rows<Wallet>,
    users: Rows<i64>,
    n: int,
    missing: Seq<char>,
)
    requires
        0 <= n <= users.len(),
    ensures
        all_credited(wallets, users.subrange(0, n), missing) matches Err(e) ==> all_credited(
            wallets,
            users,
            missing,
        ) == Err::<Rows<Wallet>, Seq<char>>(e),
    decreases users.len() - n,
{
    if n == users.len() {
        assert(users.subrange(0, n) =~= users);
    } else {
        assert(users.subrange(0, n + 1).drop_last() =~= users.subrange(0, n));
        lemma_credit_refused_later(wallets, users, n + 1, missing);
    }
}

/// Every row of a tally that adds up is positive.
pub proof fn lemma_rows_positive(rows: Rows<i64>, sum: int)
    requires
        adds_up(rows, sum),
    ensures
        forall|i: int| 0 <= i < rows.len() ==> (#[trigger] rows[i]).1 > 0,
{
    assert forall|i: int| 0 <= i < rows.len() implies (#[trigger] rows[i]).1 > 0 by {
        crate::table::lemma_lookup_row(rows, i);
        assert(lookup(rows, rows[i].0) is Some);
    }
}

/// What the wallets of a ledger hold in all: balances and, against them, debts.
pub open spec fn net_worth() -> spec_fn(Seq<char>, Wallet) -> int {
    |user: Seq<char>, w: Wallet|
        match w.balance {
            Some(b) => b - w.debt,
            None => -(w.debt as int),
        }
}

/// What the users of a ledger have earned in all.
pub open spec fn lifetime_earnings() -> spec_fn(Seq<char>, Wallet) -> int {
    |user: Seq<char>, w: Wallet| w.earned as int
}

/// What the users of a ledger may withdraw in all.
pub open spec fn withdrawable_total() -> spec_fn(Seq<char>, Wallet) -> int {
    |user: Seq<char>, w: Wallet| w.withdrawable as int
}

/// Crediting hands out exactly the amounts credited: the wallets' balances less their
/// debts grow by their sum, and so do the lifetime earnings. What may be withdrawn never
/// grows by more than what was earned.
pub proof fn law_crediting_conserves_money(
    wallets: Rows<Wallet>,
    users: Rows<i64>,
    missing: Seq<char>,
    after: Rows<Wallet>,
)
    requires
        all_credited(wallets, users, missing) == Ok::<Rows<Wallet>, Seq<char>>(after),
        forall|i: int| 0 <= i < users.len() ==> (#[trigger] users[i]).1 >= 0,
    ensures
        total(after, net_worth()) == total(wallets, net_worth()) + total(users, plain_amount()),
        total(after, lifetime_earnings()) == total(wallets, lifetime_earnings()) + total(
            users,
            plain_amount(),
        ),
        total(after, withdrawable_total()) - total(wallets, withdrawable_total()) <= total(
            users,
            plain_amount(),
        ),
    decreases users.len(),
{
    if users.len() > 0 {
        let front = users.drop_last();
        let before = all_credited(wallets, front, missing)->Ok_0;
        law_crediting_conserves_money(wallets, front, missing, before);
        let (user, amount) = users.last();
        let w = credited(wallet_of(before, user), amount as int, missing)->Ok_0;
        law_total_after_store(before, user, w, net_worth());
        law_total_after_store(before, user, w, lifetime_earnings());
        law_total_after_store(before, user, w, withdrawable_total());
    }
}

// ---------------------------------------------------------------- postings

/// The journal account of a wallet.
pub open spec fn wallet_account(user: Seq<char>, part: Seq<char>) -> Seq<char> {
    "wallet:"@ + user + part
}

/// The postings of the credits: for each user what reaches the wallet out of what was earned
/// and, where debt was repaid, by how much the debt shrinks.
pub open spec fn credit_postings(wallets: Rows<Wallet>, users: Rows<i64>) -> Seq<Tree>
    decreases users.len(),
{
    if users.len() == 0 {
        Seq::empty()
    } else {
        let front = credit_postings(wallets, users.drop_last());
        let (user, amount) = users.last();
        let paid = repaid(wallet_of(wallets, user), amount as int);
        let with_credit = front.push(
            gross_posting(wallet_account(user, ":available"@), amount - paid, amount as int),
        );
        if paid > 0 {
            with_credit.push(posting(wallet_account(user, ":debt"@), -paid))
        } else {
            with_credit
        }
    }
}

/// Add the postings of the credits to `out`.
pub fn post_credits(out: &mut Vec<Json>, wallets: &Table<Wallet>, users: &Table<i64>)
    requires
        forall|i: int| 0 <= i < users@.len() ==> (#[trigger] users@[i]).1 >= 0,
        forall|i: int|
            0 <= i < users@.len() ==> wallet_of(wallets@, (#[trigger] users@[i]).0).debt >= 0,
    ensures
        items_of(final(out)@) == items_of(old(out)@) + credit_postings(wallets@, users@),
{
    let ghost start = items_of(out@);
    let mut i: usize = 0;
    assert(users@.subrange(0, 0) =~= Seq::empty());
    assert(start + credit_postings(wallets@, users@.subrange(0, 0)) =~= start);
    while i < users.len()
        invariant
            i <= users@.len(),
            forall|j: int| 0 <= j < users@.len() ==> (#[trigger] users@[j]).1 >= 0,
            forall|j: int|
                0 <= j < users@.len() ==> wallet_of(wallets@, (#[trigger] users@[j]).0).debt >= 0,
            items_of(out@) == start + credit_postings(wallets@, users@.subrange(0, i as int)),
        decreases users@.len() - i,
    {
        let ghost upto = users@.subrange(0, i + 1);
        assert(upto.drop_last() =~= users@.subrange(0, i as int));
        assert(upto.last() == users@[i as int]);
        let user = users.key_at(i);
        let amount: i64 = *users.record_at(i);
        let debt: i64 = wallet_in(wallets, user).debt;
        let paid: i64 = if debt <= amount {
            debt
        } else {
            amount
        };
        let credit = write_posting(join3("wallet:", user, ":available").as_str(), amount - paid);
        add_posting(out, credit.with("grossAmount", Json::Whole(amount)));
        if paid > 0 {
            add_posting(out, write_posting(join3("wallet:", user, ":debt").as_str(), -paid));
        }
        assert(items_of(out@) =~= start + credit_postings(wallets@, upto));
        i = i + 1;
    }
    assert(users@.subrange(0, users@.len() as int) =~= users@);
}

/// The keys of rows, in order.
pub open spec fn keys_of<T>(rows: Rows<T>) -> Seq<Seq<char>> {
    rows.map_values(|row: (Seq<char>, T)| row.0)
}

/// Add the users of the rows to `out`.
pub fn add_participants(out: &mut Vec<String>, users: &Table<i64>)
    ensures
        texts(final(out)@) == texts(old(out)@) + keys_of(users@),
{
    let ghost start = texts(out@);
    let mut i: usize = 0;
    assert(texts(out@) =~= start + keys_of(users@).subrange(0, 0));
    while i < users.len()
        invariant
            i <= users@.len(),
            texts(out@) == start + keys_of(users@).subrange(0, i as int),
        decreases users@.len() - i,
    {
        let ghost before = out@;
        out.push(users.key_at(i).to_owned());
        assert(texts(out@) =~= texts(before).push(users@[i as int].0));
        assert(keys_of(users@).subrange(0, i + 1) =~= keys_of(users@).subrange(0, i as int).push(
            users@[i as int].0,
        ));
        assert(texts(out@) =~= start + keys_of(users@).subrange(0, i + 1));
        i = i + 1;
    }
    assert(keys_of(users@).subrange(0, users@.len() as int) =~= keys_of(users@));
}

} // verus!
