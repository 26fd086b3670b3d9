//! Holds: authorizing a run, starting it, settling what it used, and releasing it.
use vstd::prelude::*;
use vstd::utf8::encode_utf8;

use crate::decimal::{padded, write_padded};
use crate::finance::budget::{
    finalize_project_budget, finalized_budget, reserve_project_budget, reserved_budget,
};
use crate::finance::ids::{
    beneficiaries_of, copy_beneficiaries, finance_beneficiary_plan_hash, finance_hash,
    is_finance_hash, is_finance_id, plan_bytes, request_hash, valid_finance_hash,
    valid_finance_id, Beneficiary, HoldBeneficiaryInput,
};
use crate::finance::journal::{
    add_amount, add_posting, amounts_of, beneficiaries_tree, figures, lines_tree, no_amounts,
    posted, posting, write_beneficiaries, write_figures, write_lines, write_posted, write_posting,
};
use crate::finance::ledger::{
    copy_lines, journaled, lines_of, link_of, wallet_in, wallet_of, Books, Entry, Hold,
    HoldState, JournalEntry, Ledger, SettlementLine, Wallet,
};
use crate::finance::moves::{give_funds_back, given_back, set_aside, set_funds_aside};
use crate::finance::settlement::{
    add_participants, all_credited, cap_key, caps_of, credit_postings, credit_users, is_plan,
    keys_of, law_a_tally_adds_up, lemma_rows_positive, plan_caps, post_credits, tally_lines,
    tally_of, wallet_account, Rules, Tally,
};
use crate::json::{items_of, lemma_array, no_fields, object, same_value, same_values, Json, Tree};
use crate::outside::{ascii_lower, json_bytes, to_ascii_lowercase};
use crate::table::{law_lookup_after_store, lookup, stored, Rows, Table};
use crate::text::{cut, join3, join4, same, split_once, texts};

verus! {

broadcast use {vstd::string::group_string_axioms, law_lookup_after_store};

/// How long a hold may last: one day, in milliseconds.
pub const FINANCE_HOLD_MAX_TTL_MS: i64 = 86_400_000;

/// How many beneficiaries a hold may name.
pub const FINANCE_MAX_BENEFICIARIES: usize = 64;

/// What a hold action answers: whether it changed anything, the hold, and the journal
/// entry it wrote.
pub struct HoldReply {
    pub applied: bool,
    pub hold: Hold,
    pub journal_id: Option<String>,
}

/// The answer of a hold action, as texts and numbers.
pub struct HoldAnswer {
    pub applied: bool,
    pub hold: HoldState,
    pub journal_id: Option<Seq<char>>,
}

impl View for HoldReply {
    type V = HoldAnswer;

    open spec fn view(&self) -> HoldAnswer {
        HoldAnswer {
            applied: self.applied,
            hold: self.hold@,
            journal_id: match self.journal_id {
                Some(id) => Some(id@),
                None => None,
            },
        }
    }
}

/// The books and the answer after a hold action, or why it was refused.
pub type HoldOutcome = Result<(Books, HoldAnswer), Seq<char>>;

/// The answer to a request that was applied before: the hold as it is now.
pub open spec fn replayed(books: Books, hold_id: Seq<char>) -> HoldOutcome {
    match lookup(books.holds, hold_id) {
        Some(hold) => Ok((books, HoldAnswer { applied: false, hold, journal_id: None })),
        None => Err("hold not found"@),
    }
}

/// The number of a document field; zero where it holds none.
pub open spec fn number_or_zero(doc: Tree, key: Seq<char>) -> i64 {
    match doc.number(key) {
        Some(n) => n,
        None => 0,
    }
}

fn read_number(doc: &Json, key: &str) -> (r: i64)
    ensures
        r == number_or_zero(doc@, key@),
{
    match doc.number(key) {
        Some(n) => n,
        None => 0,
    }
}

fn replay(ledger: &Ledger, hold_id: &str) -> (r: Result<HoldReply, String>)
    ensures
        match r {
            Ok(reply) => replayed(ledger@, hold_id@) == Ok::<(Books, HoldAnswer), Seq<char>>(
                (ledger@, reply@),
            ),
            Err(e) => replayed(ledger@, hold_id@) == Err::<(Books, HoldAnswer), Seq<char>>(e@),
        },
{
    match ledger.holds.get(hold_id) {
        Some(hold) => Ok(HoldReply { applied: false, hold: hold.copy(), journal_id: None }),
        None => Err("hold not found".to_owned()),
    }
}

// ---------------------------------------------------------------- create

/// A request to set funds aside for a quoted run.
pub struct CreateHoldInput {
    pub quote_id: String,
    pub pricing_version: String,
    pub max_amount: i64,
    pub meter_program_id: String,
    pub settlement_authority: String,
    pub expires_at: i64,
    pub context_hash: String,
    pub beneficiary_plan_hash: String,
    pub beneficiaries: Vec<HoldBeneficiaryInput>,
    pub idempotency_key: String,
}

/// What the node knows of a hold request beyond the ledger: whether the payer belongs to the
/// quoted project, the project's configuration, and whether the metering program exists.
pub struct HoldFacts {
    pub payer_in_project: bool,
    pub project: Option<Json>,
    pub meter_exists: bool,
}

/// The project's configuration as a tree.
pub open spec fn project_in(facts: HoldFacts) -> Option<Tree> {
    match facts.project {
        Some(meta) => Some(meta@),
        None => None,
    }
}

/// The document that the payer signed: every field of the request.
pub open spec fn signed_request(input: CreateHoldInput) -> Tree {
    no_fields().with("quoteId"@, Tree::Text(input.quote_id@)).with(
        "pricingVersion"@,
        Tree::Text(input.pricing_version@),
    ).with("maxAmount"@, Tree::Whole(input.max_amount)).with(
        "meterProgramId"@,
        Tree::Text(input.meter_program_id@),
    ).with("settlementAuthority"@, Tree::Text(input.settlement_authority@)).with(
        "expiresAt"@,
        Tree::Whole(input.expires_at),
    ).with("contextHash"@, Tree::Text(input.context_hash@)).with(
        "beneficiaryPlanHash"@,
        Tree::Text(input.beneficiary_plan_hash@),
    ).with("beneficiaries"@, beneficiaries_tree(beneficiaries_of(input.beneficiaries@))).with(
        "idempotencyKey"@,
        Tree::Text(input.idempotency_key@),
    )
}

/// The document that the payer signed.
pub fn write_signed_request(input: &CreateHoldInput) -> (r: Json)
    ensures
        r@ == signed_request(*input),
{
    object().with("quoteId", Json::Text(input.quote_id.clone())).with(
        "pricingVersion",
        Json::Text(input.pricing_version.clone()),
    ).with("maxAmount", Json::Whole(input.max_amount)).with(
        "meterProgramId",
        Json::Text(input.meter_program_id.clone()),
    ).with("settlementAuthority", Json::Text(input.settlement_authority.clone())).with(
        "expiresAt",
        Json::Whole(input.expires_at),
    ).with("contextHash", Json::Text(input.context_hash.clone())).with(
        "beneficiaryPlanHash",
        Json::Text(input.beneficiary_plan_hash.clone()),
    ).with("beneficiaries", write_beneficiaries(&input.beneficiaries)).with(
        "idempotencyKey",
        Json::Text(input.idempotency_key.clone()),
    )
}

/// The hash of the document that the payer signed.
pub open spec fn signed_hash(input: CreateHoldInput) -> Seq<char> {
    request_hash(json_bytes(signed_request(input)))
}

/// Why the request itself is refused, whatever the ledger holds.
pub open spec fn hold_request_refusal(input: CreateHoldInput, now: i64) -> Option<Seq<char>> {
    if !is_finance_id(input.quote_id@) || !is_finance_id(input.pricing_version@) || !is_finance_id(
        input.idempotency_key@,
    ) || !is_finance_id(input.settlement_authority@) || !is_finance_id(input.meter_program_id@) {
        Some("invalid quote, pricing, meter, authority, or idempotency identifier"@)
    } else if !is_finance_hash(input.context_hash@) || !is_finance_hash(
        input.beneficiary_plan_hash@,
    ) {
        Some("contextHash and beneficiaryPlanHash must be sha256 hex"@)
    } else if input.max_amount <= 0 {
        Some("maxAmount must be greater than zero"@)
    } else if input.expires_at <= now {
        Some("expiresAt must be in the future and within 24 hours"@)
    } else if now + FINANCE_HOLD_MAX_TTL_MS > i64::MAX {
        Some("hold expiry overflow"@)
    } else if input.expires_at > now + FINANCE_HOLD_MAX_TTL_MS {
        Some("expiresAt must be in the future and within 24 hours"@)
    } else if input.beneficiaries@.len() == 0 || input.beneficiaries@.len()
        > FINANCE_MAX_BENEFICIARIES {
        Some("beneficiaries must contain between 1 and 64 entries"@)
    } else {
        None
    }
}

/// Why the request does not stand against its quote.
pub open spec fn hold_quote_refusal(
    books: Books,
    payer: Seq<char>,
    input: CreateHoldInput,
    facts: HoldFacts,
    now: i64,
) -> Option<Seq<char>> {
    match lookup(books.quotes, input.quote_id@) {
        None => Some("billing quote not found"@),
        Some(quote) => {
            let expires = number_or_zero(quote, "expiresAt"@);
            if quote.text("payerUserId"@) != Some(payer) {
                Some("billing quote payer mismatch"@)
            } else if expires <= 0 || now > expires {
                Some("billing quote expired"@)
            } else if !same_value(quote.field("holdRequest"@), Some(signed_request(input))) {
                Some("hold request does not match server quote"@)
            } else if quote.text_or_empty("projectId"@).len() > 0 && !facts.payer_in_project {
                Some("payer is not a project member"@)
            } else if wallet_of(books.wallets, input.settlement_authority@).balance is None {
                Some("settlement authority not found"@)
            } else if !facts.meter_exists {
                Some("meter program not found"@)
            } else if request_hash(plan_bytes(beneficiaries_of(input.beneficiaries@)))
                != input.beneficiary_plan_hash@.map_values(|c: char| ascii_lower(c)) {
                Some("beneficiary plan hash mismatch"@)
            } else {
                None
            }
        },
    }
}

/// What the caps of a hold's plan add up to, or why the plan is refused.
pub open spec fn plan_total(
    plan: Seq<Beneficiary>,
    payer: Seq<char>,
    wallets: Rows<Wallet>,
) -> Result<int, Seq<char>>
    decreases plan.len(),
{
    if plan.len() == 0 {
        Ok(0)
    } else {
        match plan_total(plan.drop_last(), payer, wallets) {
            Err(e) => Err(e),
            Ok(sum) => {
                let b = plan.last();
                if !is_finance_id(b.user_id) || !is_finance_id(b.role) || b.max_amount <= 0 {
                    Err("invalid beneficiary"@)
                } else if b.user_id == payer {
                    Err("payer cannot be a hold beneficiary"@)
                } else if lookup(caps_of(plan.drop_last()), cap_key(b.user_id, b.role)) is Some {
                    Err("duplicate beneficiary role"@)
                } else if wallet_of(wallets, b.user_id).balance is None {
                    Err("beneficiary not found"@)
                } else if sum + b.max_amount > i64::MAX {
                    Err("beneficiary cap overflow"@)
                } else {
                    Ok(sum + b.max_amount)
                }
            },
        }
    }
}

/// The marker that makes a hold request idempotent.
pub open spec fn hold_request_marker(payer: Seq<char>, key: Seq<char>) -> Seq<char> {
    "FinanceHoldRequest::"@ + payer + "::"@ + key
}

/// The index key under which a payer finds a hold.
pub open spec fn hold_index_key(payer: Seq<char>, now: int, id: Seq<char>) -> Seq<char> {
    "FinanceHoldByPayer::"@ + payer + "::"@ + padded(now) + "::"@ + id
}

/// The users of a plan.
pub open spec fn plan_users(plan: Seq<Beneficiary>) -> Seq<Seq<char>> {
    plan.map_values(|b: Beneficiary| b.user_id)
}

/// The hold that a request opens.
pub open spec fn opened_hold(
    payer: Seq<char>,
    input: CreateHoldInput,
    project: Seq<char>,
    part: int,
    hash: Seq<char>,
    now: i64,
) -> HoldState {
    HoldState {
        payer_user_id: payer,
        quote_id: input.quote_id@,
        pricing_version: input.pricing_version@,
        max_amount: input.max_amount as int,
        remaining_amount: input.max_amount as int,
        withdrawable_amount: part,
        meter_program_id: input.meter_program_id@,
        settlement_authority: input.settlement_authority@,
        expires_at: input.expires_at as int,
        project_id: project,
        context_hash: input.context_hash@,
        beneficiary_plan_hash: input.beneficiary_plan_hash@.map_values(|c: char| ascii_lower(c)),
        beneficiaries: Some(beneficiaries_of(input.beneficiaries@)),
        request_hash: hash,
        status: "open"@,
        created_at: now as int,
        run_id: Seq::empty(),
        started_at: 0,
        actual_amount: 0,
        refunded_amount: 0,
        withdrawable_refunded_amount: 0,
        withdrawable_spent_amount: 0,
        settlement_id: Seq::empty(),
        usage_hash: Seq::empty(),
        settlement_lines: Seq::empty(),
        finalized_at: 0,
        release_id: Seq::empty(),
        release_reason: Seq::empty(),
    }
}

/// The refusal where the balance does not cover a hold.
pub open spec fn hold_insufficient() -> Seq<char> {
    "insufficient available balance to authorize this run (funds may be held by another active run)"@
}

/// Opening a hold that no earlier request opened.
pub open spec fn hold_opened(
    books: Books,
    payer: Seq<char>,
    input: CreateHoldInput,
    facts: HoldFacts,
    now: i64,
    hold_id: Seq<char>,
    journal_id: Seq<char>,
) -> HoldOutcome {
    let quote = lookup(books.quotes, input.quote_id@)->0;
    let project = quote.text_or_empty("projectId"@);
    let plan = beneficiaries_of(input.beneficiaries@);
    let amount = input.max_amount as int;
    let w = wallet_of(books.wallets, payer);
    match plan_total(plan, payer, books.wallets) {
        Err(e) => Err(e),
        Ok(sum) => if sum != amount {
            Err("beneficiary caps must equal maxAmount"@)
        } else if w.balance is None {
            Err("payer creature not found"@)
        } else if w.debt < 0 {
            Err("invalid wallet debt"@)
        } else if w.debt > 0 {
            Err("wallet has outstanding payment debt"@)
        } else {
            match set_aside(w, amount, hold_insufficient()) {
                Err(e) => Err(e),
                Ok((next, part)) => match reserved_budget(
                    books.budgets,
                    project,
                    project_in(facts),
                    input.max_amount,
                    now,
                ) {
                    Err(e) => Err(e),
                    Ok(budgets) => {
                        let hash = signed_hash(input);
                        let hold = opened_hold(payer, input, project, part, hash, now);
                        let written = Books {
                            wallets: stored(books.wallets, payer, next),
                            holds: stored(books.holds, hold_id, hold),
                            budgets,
                            links: stored(
                                stored(
                                    books.links,
                                    hold_request_marker(payer, input.idempotency_key@),
                                    hold_id + "|"@ + hash,
                                ),
                                hold_index_key(payer, now as int, hold_id),
                                hold_id,
                            ),
                            ..books
                        };
                        let entry = Entry {
                            kind: "hold.created"@,
                            hold_id,
                            payer_user_id: payer,
                            created_at: now as int,
                            payload: posted(
                                seq![
                                    (wallet_account(payer, ":available"@), -amount),
                                    (wallet_account(payer, ":held"@), amount),
                                ],
                            ).with("quoteId"@, Tree::Text(input.quote_id@)).with(
                                "pricingVersion"@,
                                Tree::Text(input.pricing_version@),
                            ).with("projectId"@, Tree::Text(project)),
                        };
                        let participants = seq![payer, input.settlement_authority@] + plan_users(
                            plan,
                        );
                        Ok(
                            (
                                journaled(written, journal_id, entry, participants),
                                HoldAnswer { applied: true, hold, journal_id: Some(journal_id) },
                            ),
                        )
                    },
                },
            }
        },
    }
}

/// What a hold request does: a refusal, the earlier answer again, or a new hold.
pub open spec fn hold_created(
    books: Books,
    payer: Seq<char>,
    input: CreateHoldInput,
    facts: HoldFacts,
    now: i64,
    hold_id: Seq<char>,
    journal_id: Seq<char>,
) -> HoldOutcome {
    let previous = link_of(books.links, hold_request_marker(payer, input.idempotency_key@));
    match hold_request_refusal(input, now) {
        Some(e) => Err(e),
        None => match hold_quote_refusal(books, payer, input, facts, now) {
            Some(e) => Err(e),
            None => if previous.len() > 0 {
                match cut(previous, "|"@) {
                    None => Err("invalid hold idempotency record"@),
                    Some((earlier, hash)) => if hash != signed_hash(input) {
                        Err("idempotency key already used with different request"@)
                    } else {
                        replayed(books, earlier)
                    },
                }
            } else {
                hold_opened(books, payer, input, facts, now, hold_id, journal_id)
            },
        },
    }
}

fn check_plan(plan: &Vec<HoldBeneficiaryInput>, payer: &str, wallets: &Table<Wallet>) -> (r: Result<
    i64,
    String,
>)
    ensures
        match r {
            Ok(sum) => plan_total(beneficiaries_of(plan@), payer@, wallets@) == Ok::<
                int,
                Seq<char>,
            >(sum as int),
            Err(e) => plan_total(beneficiaries_of(plan@), payer@, wallets@) == Err::<
                int,
                Seq<char>,
            >(e@),
        },
{
    let ghost list = beneficiaries_of(plan@);
    let mut caps: Table<i64> = Table::new();
    let mut sum: i64 = 0;
    let mut i: usize = 0;
    assert(list.subrange(0, 0) =~= Seq::empty());
    while i < plan.len()
        invariant
            i <= plan@.len(),
            list == beneficiaries_of(plan@),
            sum >= 0,
            caps@ == caps_of(list.subrange(0, i as int)),
            plan_total(list.subrange(0, i as int), payer@, wallets@) == Ok::<int, Seq<char>>(
                sum as int,
            ),
        decreases plan.len() - i,
    {
        let b = &plan[i];
        let ghost upto = list.subrange(0, i + 1);
        proof {
            assert(upto.drop_last() =~= list.subrange(0, i as int));
            assert(upto.last() == b@);
            lemma_plan_refused_later(list, i + 1, payer@, wallets@);
        }
        if !valid_finance_id(b.user_id.as_str()) || !valid_finance_id(b.role.as_str())
            || b.max_amount <= 0 {
            return Err("invalid beneficiary".to_owned());
        }
        if same(b.user_id.as_str(), payer) {
            return Err("payer cannot be a hold beneficiary".to_owned());
        }
        let key = join3(b.user_id.as_str(), "|", b.role.as_str());
        if caps.has(key.as_str()) {
            return Err("duplicate beneficiary role".to_owned());
        }
        if wallet_in(wallets, b.user_id.as_str()).balance.is_none() {
            return Err("beneficiary not found".to_owned());
        }
        sum = match sum.checked_add(b.max_amount) {
            Some(v) => v,
            None => {
                return Err("beneficiary cap overflow".to_owned());
            },
        };
        caps.put(key.as_str(), b.max_amount);
        i = i + 1;
    }
    assert(list.subrange(0, list.len() as int) =~= list);
    Ok(sum)
}

proof fn lemma_plan_refused_later(
    plan: Seq<Beneficiary>,
    n: int,
    payer: Seq<char>,
    wallets: Rows<Wallet>,
)
    requires
        0 <= n <= plan.len(),
    ensures
        plan_total(plan.subrange(0, n), payer, wallets) matches Err(e) ==> plan_total(
            plan,
            payer,
            wallets,
        ) == Err::<int, Seq<char>>(e),
    decreases plan.len() - n,
{
    if n == plan.len() {
        assert(plan.subrange(0, n) =~= plan);
    } else {
        assert(plan.subrange(0, n + 1).drop_last() =~= plan.subrange(0, n));
        lemma_plan_refused_later(plan, n + 1, payer, wallets);
    }
}

fn refuse_hold_request(input: &CreateHoldInput, now: i64) -> (r: Option<String>)
    ensures
        match r {
            Some(e) => hold_request_refusal(*input, now) == Some(e@),
            None => hold_request_refusal(*input, now) is None,
        },
{
    if !valid_finance_id(input.quote_id.as_str()) || !valid_finance_id(
        input.pricing_version.as_str(),
    ) || !valid_finance_id(input.idempotency_key.as_str()) || !valid_finance_id(
        input.settlement_authority.as_str(),
    ) || !valid_finance_id(input.meter_program_id.as_str()) {
        return Some(
            "invalid quote, pricing, meter, authority, or idempotency identifier".to_owned(),
        );
    }
    if !valid_finance_hash(input.context_hash.as_str()) || !valid_finance_hash(
        input.beneficiary_plan_hash.as_str(),
    ) {
        return Some("contextHash and beneficiaryPlanHash must be sha256 hex".to_owned());
    }
    if input.max_amount <= 0 {
        return Some("maxAmount must be greater than zero".to_owned());
    }
    if input.expires_at <= now {
        return Some("expiresAt must be in the future and within 24 hours".to_owned());
    }
    let latest: i64 = match now.checked_add(FINANCE_HOLD_MAX_TTL_MS) {
        Some(v) => v,
        None => {
            return Some("hold expiry overflow".to_owned());
        },
    };
    if input.expires_at > latest {
        return Some("expiresAt must be in the future and within 24 hours".to_owned());
    }
    if input.beneficiaries.len() == 0 || input.beneficiaries.len() > FINANCE_MAX_BENEFICIARIES {
        return Some("beneficiaries must contain between 1 and 64 entries".to_owned());
    }
    None
}

fn refuse_hold_quote(
    ledger: &Ledger,
    payer: &str,
    input: &CreateHoldInput,
    facts: &HoldFacts,
    now: i64,
) -> (r: Option<String>)
    ensures
        match r {
            Some(e) => hold_quote_refusal(ledger@, payer@, *input, *facts, now) == Some(e@),
            None => hold_quote_refusal(ledger@, payer@, *input, *facts, now) is None,
        },
{
    let quote = match ledger.quotes.get(input.quote_id.as_str()) {
        Some(quote) => quote,
        None => {
            return Some("billing quote not found".to_owned());
        },
    };
    if !quote.has_text("payerUserId", payer) {
        return Some("billing quote payer mismatch".to_owned());
    }
    let expires: i64 = read_number(quote, "expiresAt");
    if expires <= 0 || now > expires {
        return Some("billing quote expired".to_owned());
    }
    let signed = write_signed_request(input);
    if !same_values(quote.field("holdRequest"), Some(&signed)) {
        return Some("hold request does not match server quote".to_owned());
    }
    if !quote.text_or_empty("projectId").is_empty() && !facts.payer_in_project {
        return Some("payer is not a project member".to_owned());
    }
    if wallet_in(&ledger.wallets, input.settlement_authority.as_str()).balance.is_none() {
        return Some("settlement authority not found".to_owned());
    }
    if !facts.meter_exists {
        return Some("meter program not found".to_owned());
    }
    let hash = finance_beneficiary_plan_hash(&input.beneficiaries);
    let claimed = to_ascii_lowercase(input.beneficiary_plan_hash.as_str());
    if !same(hash.as_str(), claimed.as_str()) {
        return Some("beneficiary plan hash mismatch".to_owned());
    }
    None
}

fn open_hold(
    ledger: &mut Ledger,
    payer: &str,
    input: &CreateHoldInput,
    facts: &HoldFacts,
    now: i64,
    hold_id: &str,
    journal_id: &str,
) -> (r: Result<HoldReply, String>)
    requires
        hold_request_refusal(*input, now) is None,
        hold_quote_refusal(old(ledger)@, payer@, *input, *facts, now) is None,
    ensures
        match r {
            Ok(reply) => hold_opened(
                old(ledger)@,
                payer@,
                *input,
                *facts,
                now,
                hold_id@,
                journal_id@,
            ) == Ok::<(Books, HoldAnswer), Seq<char>>((final(ledger)@, reply@)),
            Err(e) => final(ledger)@ == old(ledger)@ && hold_opened(
                old(ledger)@,
                payer@,
                *input,
                *facts,
                now,
                hold_id@,
                journal_id@,
            ) == Err::<(Books, HoldAnswer), Seq<char>>(e@),
        },
{
    let project: String = match ledger.quotes.get(input.quote_id.as_str()) {
        Some(quote) => quote.text_or_empty("projectId").to_owned(),
        None => String::new(),
    };
    let sum: i64 = match check_plan(&input.beneficiaries, payer, &ledger.wallets) {
        Ok(sum) => sum,
        Err(e) => {
            return Err(e);
        },
    };
    if sum != input.max_amount {
        return Err("beneficiary caps must equal maxAmount".to_owned());
    }
    let w = wallet_in(&ledger.wallets, payer);
    if w.balance.is_none() {
        return Err("payer creature not found".to_owned());
    }
    if w.debt < 0 {
        return Err("invalid wallet debt".to_owned());
    }
    if w.debt > 0 {
        return Err("wallet has outstanding payment debt".to_owned());
    }
    let (next, part) = match set_funds_aside(
        w,
        input.max_amount,
        "insufficient available balance to authorize this run (funds may be held by another active run)",
    ) {
        Ok(moved) => moved,
        Err(e) => {
            return Err(e);
        },
    };
    let budget = match reserve_project_budget(
        &ledger.budgets,
        project.as_str(),
        &facts.project,
        input.max_amount,
        now,
    ) {
        Ok(budget) => budget,
        Err(e) => {
            return Err(e);
        },
    };
    let hash = finance_hash(&write_signed_request(input));
    let none: Vec<SettlementLine> = Vec::new();
    let empty = String::new();
    proof {
        assert(lines_of(none@) =~= Seq::empty());
        assert(empty@ =~= Seq::<char>::empty());
    }
    let hold = Hold {
        payer_user_id: payer.to_owned(),
        quote_id: input.quote_id.clone(),
        pricing_version: input.pricing_version.clone(),
        max_amount: input.max_amount,
        remaining_amount: input.max_amount,
        withdrawable_amount: part,
        meter_program_id: input.meter_program_id.clone(),
        settlement_authority: input.settlement_authority.clone(),
        expires_at: input.expires_at,
        project_id: project.clone(),
        context_hash: input.context_hash.clone(),
        beneficiary_plan_hash: to_ascii_lowercase(input.beneficiary_plan_hash.as_str()),
        beneficiaries: Some(copy_beneficiaries(&input.beneficiaries)),
        request_hash: hash.clone(),
        status: "open".to_owned(),
        created_at: now,
        run_id: empty.clone(),
        started_at: 0,
        actual_amount: 0,
        refunded_amount: 0,
        withdrawable_refunded_amount: 0,
        withdrawable_spent_amount: 0,
        settlement_id: empty.clone(),
        usage_hash: empty.clone(),
        settlement_lines: none,
        finalized_at: 0,
        release_id: empty.clone(),
        release_reason: empty.clone(),
    };
    let ghost opened = opened_hold(payer@, *input, project@, part as int, hash@, now);
    assert(hold@ =~= opened);
    let reply = HoldReply {
        applied: true,
        hold: hold.copy(),
        journal_id: Some(journal_id.to_owned()),
    };
    ledger.wallets.put(payer, next);
    ledger.holds.put(hold_id, hold);
    match budget {
        Some(state) => {
            ledger.budgets.put(project.as_str(), state);
        },
        None => {},
    }
    let marker = join4("FinanceHoldRequest::", payer, "::", input.idempotency_key.as_str());
    ledger.links.put(marker.as_str(), join3(hold_id, "|", hash.as_str()));
    let stamp = write_padded(now);
    let head = join4("FinanceHoldByPayer::", payer, "::", stamp.as_str());
    let index = join3(head.as_str(), "::", hold_id);
    assert(index@ == hold_index_key(payer@, now as int, hold_id@));
    ledger.links.put(index.as_str(), hold_id.to_owned());
    let mut amounts: Vec<(String, i64)> = Vec::new();
    amounts.push((join3("wallet:", payer, ":available"), -input.max_amount));
    amounts.push((join3("wallet:", payer, ":held"), input.max_amount));
    assert(amounts_of(amounts@) =~= seq![
        (wallet_account(payer@, ":available"@), -(input.max_amount as int)),
        (wallet_account(payer@, ":held"@), input.max_amount as int),
    ]);
    let entry = JournalEntry {
        kind: "hold.created".to_owned(),
        hold_id: hold_id.to_owned(),
        payer_user_id: payer.to_owned(),
        created_at: now,
        payload: write_posted(&amounts).with("quoteId", Json::Text(input.quote_id.clone())).with(
            "pricingVersion",
            Json::Text(input.pricing_version.clone()),
        ).with("projectId", Json::Text(project.clone())),
    };
    let mut participants: Vec<String> = Vec::new();
    participants.push(payer.to_owned());
    participants.push(input.settlement_authority.clone());
    add_plan_users(&mut participants, &input.beneficiaries);
    assert(texts(participants@) =~= seq![payer@, input.settlement_authority@] + plan_users(
        beneficiaries_of(input.beneficiaries@),
    ));
    ledger.write_finance_journal(journal_id, entry, &participants);
    Ok(reply)
}

fn add_plan_users(out: &mut Vec<String>, plan: &Vec<HoldBeneficiaryInput>)
    ensures
        texts(final(out)@) == texts(old(out)@) + plan_users(beneficiaries_of(plan@)),
{
    let ghost start = texts(out@);
    let ghost users = plan_users(beneficiaries_of(plan@));
    let mut i: usize = 0;
    assert(texts(out@) =~= start + users.subrange(0, 0));
    while i < plan.len()
        invariant
            i <= plan@.len(),
            users == plan_users(beneficiaries_of(plan@)),
            texts(out@) == start + users.subrange(0, i as int),
        decreases plan.len() - i,
    {
        let ghost before = out@;
        out.push(plan[i].user_id.clone());
        assert(texts(out@) =~= texts(before).push(plan@[i as int].user_id@));
        assert(users[i as int] == plan@[i as int].user_id@);
        assert(texts(out@) =~= start + users.subrange(0, i + 1));
        i = i + 1;
    }
    assert(users.subrange(0, users.len() as int) =~= users);
}

/// Set funds of the payer aside for a quoted run.
pub fn create_hold(
    ledger: &mut Ledger,
    payer: &str,
    input: &CreateHoldInput,
    facts: &HoldFacts,
    now: i64,
    hold_id: &str,
    journal_id: &str,
) -> (r: Result<HoldReply, String>)
    ensures
        match r {
            Ok(reply) => hold_created(
                old(ledger)@,
                payer@,
                *input,
                *facts,
                now,
                hold_id@,
                journal_id@,
            ) == Ok::<(Books, HoldAnswer), Seq<char>>((final(ledger)@, reply@)),
            Err(e) => final(ledger)@ == old(ledger)@ && hold_created(
                old(ledger)@,
                payer@,
                *input,
                *facts,
                now,
                hold_id@,
                journal_id@,
            ) == Err::<(Books, HoldAnswer), Seq<char>>(e@),
        },
{
    match refuse_hold_request(input, now) {
        Some(e) => {
            return Err(e);
        },
        None => {},
    }
    match refuse_hold_quote(&*ledger, payer, input, facts, now) {
        Some(e) => {
            return Err(e);
        },
        None => {},
    }
    let marker = join4("FinanceHoldRequest::", payer, "::", input.idempotency_key.as_str());
    let previous = ledger.link(marker.as_str());
    if !previous.as_str().is_empty() {
        return match split_once(previous.as_str(), "|") {
            None => Err("invalid hold idempotency record".to_owned()),
            Some((earlier, hash)) => {
                let current = finance_hash(&write_signed_request(input));
                if !same(hash, current.as_str()) {
                    Err("idempotency key already used with different request".to_owned())
                } else {
                    replay(&*ledger, earlier)
                }
            },
        };
    }
    open_hold(ledger, payer, input, facts, now, hold_id, journal_id)
}

// ---------------------------------------------------------------- start

/// A request to bind a hold to the run it pays for.
pub struct StartHoldInput {
    pub hold_id: String,
    pub payer_user_id: String,
    pub quote_id: String,
    pub run_id: String,
}

/// The marker that makes a start idempotent.
pub open spec fn run_marker(authority: Seq<char>, run: Seq<char>) -> Seq<char> {
    "FinanceRun::"@ + authority + "::"@ + run
}

/// Whether a hold that expires at `expires_at` is past at `now`.
pub open spec fn is_past(expires_at: int, now: int) -> bool {
    expires_at <= 0 || now > expires_at
}

/// What starting a hold does.
pub open spec fn hold_started(
    books: Books,
    authority: Seq<char>,
    input: StartHoldInput,
    now: i64,
    journal_id: Seq<char>,
) -> HoldOutcome {
    let marker = run_marker(authority, input.run_id@);
    let previous = link_of(books.links, marker);
    if !is_finance_id(input.hold_id@) || !is_finance_id(input.payer_user_id@) || !is_finance_id(
        input.quote_id@,
    ) || !is_finance_id(input.run_id@) {
        Err("invalid run authorization"@)
    } else if previous.len() > 0 {
        if previous != input.hold_id@ {
            Err("run id already used for another hold"@)
        } else {
            replayed(books, input.hold_id@)
        }
    } else {
        match lookup(books.holds, input.hold_id@) {
            None => Err("hold not found"@),
            Some(hold) => if hold.status != "open"@ {
                Err("hold is not open"@)
            } else if hold.payer_user_id != input.payer_user_id@ {
                Err("payer does not match hold"@)
            } else if hold.quote_id != input.quote_id@ {
                Err("quote does not match hold"@)
            } else if hold.settlement_authority != authority {
                Err("caller is not the settlement authority"@)
            } else if is_past(hold.expires_at, now as int) {
                Err("hold expired"@)
            } else {
                let started = HoldState {
                    status: "running"@,
                    run_id: input.run_id@,
                    started_at: now as int,
                    ..hold
                };
                let written = Books {
                    holds: stored(books.holds, input.hold_id@, started),
                    links: stored(books.links, marker, input.hold_id@),
                    ..books
                };
                let entry = Entry {
                    kind: "hold.started"@,
                    hold_id: input.hold_id@,
                    payer_user_id: input.payer_user_id@,
                    created_at: now as int,
                    payload: posted(Seq::empty()).with("quoteId"@, Tree::Text(input.quote_id@)).with(
                        "runId"@,
                        Tree::Text(input.run_id@),
                    ),
                };
                Ok(
                    (
                        journaled(written, journal_id, entry, seq![input.payer_user_id@, authority]),
                        HoldAnswer { applied: true, hold: started, journal_id: Some(journal_id) },
                    ),
                )
            },
        }
    }
}

fn pair(a: &str, b: &str) -> (r: Vec<String>)
    ensures
        texts(r@) == seq![a@, b@],
{
    let mut out: Vec<String> = Vec::new();
    out.push(a.to_owned());
    out.push(b.to_owned());
    assert(texts(out@) =~= seq![a@, b@]);
    out
}

/// Bind an open hold to the run it pays for.
pub fn start_hold(
    ledger: &mut Ledger,
    authority: &str,
    input: &StartHoldInput,
    now: i64,
    journal_id: &str,
) -> (r: Result<HoldReply, String>)
    ensures
        match r {
            Ok(reply) => hold_started(old(ledger)@, authority@, *input, now, journal_id@) == Ok::<
                (Books, HoldAnswer),
                Seq<char>,
            >((final(ledger)@, reply@)),
            Err(e) => final(ledger)@ == old(ledger)@ && hold_started(
                old(ledger)@,
                authority@,
                *input,
                now,
                journal_id@,
            ) == Err::<(Books, HoldAnswer), Seq<char>>(e@),
        },
{
    let hold_id = input.hold_id.as_str();
    if !valid_finance_id(hold_id) || !valid_finance_id(input.payer_user_id.as_str())
        || !valid_finance_id(input.quote_id.as_str()) || !valid_finance_id(input.run_id.as_str()) {
        return Err("invalid run authorization".to_owned());
    }
    let marker = join4("FinanceRun::", authority, "::", input.run_id.as_str());
    let previous = ledger.link(marker.as_str());
    if !previous.as_str().is_empty() {
        if !same(previous.as_str(), hold_id) {
            return Err("run id already used for another hold".to_owned());
        }
        return replay(&*ledger, hold_id);
    }
    let mut hold = match ledger.holds.get(hold_id) {
        Some(hold) => hold.copy(),
        None => {
            return Err("hold not found".to_owned());
        },
    };
    if !same(hold.status.as_str(), "open") {
        return Err("hold is not open".to_owned());
    }
    if !same(hold.payer_user_id.as_str(), input.payer_user_id.as_str()) {
        return Err("payer does not match hold".to_owned());
    }
    if !same(hold.quote_id.as_str(), input.quote_id.as_str()) {
        return Err("quote does not match hold".to_owned());
    }
    if !same(hold.settlement_authority.as_str(), authority) {
        return Err("caller is not the settlement authority".to_owned());
    }
    if hold.expires_at <= 0 || now > hold.expires_at {
        return Err("hold expired".to_owned());
    }
    hold.status = "running".to_owned();
    hold.run_id = input.run_id.clone();
    hold.started_at = now;
    let reply = HoldReply {
        applied: true,
        hold: hold.copy(),
        journal_id: Some(journal_id.to_owned()),
    };
    ledger.holds.put(hold_id, hold);
    ledger.links.put(marker.as_str(), hold_id.to_owned());
    let amounts: Vec<(String, i64)> = Vec::new();
    assert(amounts_of(amounts@) =~= Seq::empty());
    let entry = JournalEntry {
        kind: "hold.started".to_owned(),
        hold_id: hold_id.to_owned(),
        payer_user_id: input.payer_user_id.clone(),
        created_at: now,
        payload: write_posted(&amounts).with("quoteId", Json::Text(input.quote_id.clone())).with(
            "runId",
            Json::Text(input.run_id.clone()),
        ),
    };
    let participants = pair(input.payer_user_id.as_str(), authority);
    ledger.write_finance_journal(journal_id, entry, &participants);
    Ok(reply)
}

// ---------------------------------------------------------------- settle

/// A request to pay out what a run used.
pub struct SettleHoldInput {
    pub hold_id: String,
    pub payer_user_id: String,
    pub quote_id: String,
    pub settlement_id: String,
    pub usage_hash: String,
    pub lines: Vec<SettlementLine>,
}

/// The marker that makes a settlement idempotent.
pub open spec fn settlement_marker(authority: Seq<char>, id: Seq<char>) -> Seq<char> {
    "FinanceSettlement::"@ + authority + "::"@ + id
}

/// Why a hold cannot be settled by this request, apart from its lines.
pub open spec fn settlement_refusal(
    hold: HoldState,
    authority: Seq<char>,
    input: SettleHoldInput,
    now: i64,
) -> Option<Seq<char>> {
    if hold.status != "running"@ {
        Some("hold is not running"@)
    } else if hold.payer_user_id != input.payer_user_id@ {
        Some("payer does not match hold"@)
    } else if hold.quote_id != input.quote_id@ {
        Some("quote does not match hold"@)
    } else if hold.run_id != input.settlement_id@ {
        Some("settlement does not match authorized run"@)
    } else if hold.settlement_authority != authority {
        Some("caller is not the settlement authority"@)
    } else if is_past(hold.expires_at, now as int) {
        Some("hold expired"@)
    } else if hold.max_amount <= 0 {
        Some("invalid hold amount"@)
    } else if hold.beneficiaries is None {
        Some("hold beneficiaries missing"@)
    } else if !is_plan(hold.beneficiaries->0, true) {
        Some("invalid hold beneficiary"@)
    } else {
        None
    }
}

/// The smaller of two numbers.
pub open spec fn smaller(a: int, b: int) -> int {
    if a <= b {
        a
    } else {
        b
    }
}

/// A wallet that has spent `amount` more.
pub open spec fn charged(w: Wallet, amount: int) -> Result<Wallet, Seq<char>> {
    if w.spent < 0 {
        Err("invalid finance counter"@)
    } else if w.spent + amount > i64::MAX {
        Err("finance counter overflow"@)
    } else {
        Ok(Wallet { spent: (w.spent + amount) as i64, ..w })
    }
}

/// Count `amount` as spent by a wallet.
pub fn charge_wallet(w: Wallet, amount: i64) -> (r: Result<Wallet, String>)
    requires
        amount >= 0,
    ensures
        match r {
            Ok(next) => charged(w, amount as int) == Ok::<Wallet, Seq<char>>(next),
            Err(e) => charged(w, amount as int) == Err::<Wallet, Seq<char>>(e@),
        },
{
    if w.spent < 0 {
        return Err("invalid finance counter".to_owned());
    }
    match w.spent.checked_add(amount) {
        Some(spent) => Ok(Wallet { spent, ..w }),
        None => Err("finance counter overflow".to_owned()),
    }
}

/// The wallets after a settlement: the payer has spent `sum`, each user has earned their
/// amount, and the payer's hold of `max` is gone, with `refund` of it back in the balance.
pub open spec fn settled_wallets(
    wallets: Rows<Wallet>,
    payer: Seq<char>,
    tally: Tally,
    max: int,
    back: int,
) -> Result<Rows<Wallet>, Seq<char>> {
    match charged(wallet_of(wallets, payer), tally.sum) {
        Err(e) => Err(e),
        Ok(spender) => match all_credited(
            stored(wallets, payer, spender),
            tally.users,
            Rules::Hold.missing(),
        ) {
            Err(e) => Err(e),
            Ok(paid) => match given_back(wallet_of(paid, payer), max - tally.sum, back, max) {
                Err(e) => Err(e),
                Ok(w) => Ok(stored(paid, payer, w)),
            },
        },
    }
}

/// What the journal says of a settlement.
pub open spec fn settled_payload(
    input: SettleHoldInput,
    entries: Seq<Tree>,
    actual: int,
    refund: int,
) -> Tree {
    figures(
        no_fields().with("entries"@, Tree::Array(entries)).with("quoteId"@, Tree::Text(input.quote_id@)).with(
            "settlementId"@,
            Tree::Text(input.settlement_id@),
        ).with("usageHash"@, Tree::Text(input.usage_hash@)),
        seq![("actualAmount"@, actual), ("refundedAmount"@, refund)],
    ).with("settlementLines"@, lines_tree(lines_of(input.lines@)))
}

fn write_settled(
    input: &SettleHoldInput,
    entries: Vec<Json>,
    actual: i64,
    refund: i64,
) -> (r: Json)
    ensures
        r@ == settled_payload(*input, items_of(entries@), actual as int, refund as int),
{
    proof {
        lemma_array(entries);
    }
    let mut totals = no_amounts();
    add_amount(&mut totals, "actualAmount", actual);
    add_amount(&mut totals, "refundedAmount", refund);
    assert(amounts_of(totals@) =~= seq![
        ("actualAmount"@, actual as int),
        ("refundedAmount"@, refund as int),
    ]);
    let base = object().with("entries", Json::Array(entries)).with(
        "quoteId",
        Json::Text(input.quote_id.clone()),
    ).with(
        "settlementId",
        Json::Text(input.settlement_id.clone()),
    ).with("usageHash", Json::Text(input.usage_hash.clone()));
    write_figures(base, &totals).with("settlementLines", write_lines(&input.lines))
}

/// What settling a hold does.
pub open spec fn hold_settled(
    books: Books,
    authority: Seq<char>,
    input: SettleHoldInput,
    now: i64,
    journal_id: Seq<char>,
) -> HoldOutcome {
    let payer = input.payer_user_id@;
    let marker = settlement_marker(authority, input.settlement_id@);
    let previous = link_of(books.links, marker);
    if !is_finance_id(input.hold_id@) || !is_finance_id(payer) || !is_finance_id(input.quote_id@)
        || !is_finance_id(input.settlement_id@) || !is_finance_hash(input.usage_hash@) {
        Err("invalid settlement identifiers or usageHash"@)
    } else if previous.len() > 0 {
        if previous != input.hold_id@ {
            Err("settlement id already used for another hold"@)
        } else {
            replayed(books, input.hold_id@)
        }
    } else {
        match lookup(books.holds, input.hold_id@) {
            None => Err("hold not found"@),
            Some(hold) => match settlement_refusal(hold, authority, input, now) {
                Some(e) => Err(e),
                None => {
                    let lines = lines_of(input.lines@);
                    let max = hold.max_amount;
                    match tally_of(lines, caps_of(hold.beneficiaries->0), payer, Rules::Hold) {
                        Err(e) => Err(e),
                        Ok(tally) => if tally.sum > max {
                            Err("settlement exceeds hold"@)
                        } else {
                            let refund = max - tally.sum;
                            let back = smaller(refund, hold.withdrawable_amount);
                            match finalized_budget(
                                books.budgets,
                                hold.project_id,
                                max as i64,
                                tally.sum as i64,
                                now,
                            ) {
                                Err(e) => Err(e),
                                Ok(budgets) => match settled_wallets(
                                    books.wallets,
                                    payer,
                                    tally,
                                    max,
                                    back,
                                ) {
                                    Err(e) => Err(e),
                                    Ok(wallets) => {
                                        let settled = HoldState {
                                            status: "settled"@,
                                            remaining_amount: 0,
                                            actual_amount: tally.sum,
                                            refunded_amount: refund,
                                            withdrawable_refunded_amount: back,
                                            withdrawable_spent_amount: hold.withdrawable_amount
                                                - back,
                                            settlement_id: input.settlement_id@,
                                            usage_hash: input.usage_hash@,
                                            settlement_lines: lines,
                                            finalized_at: now as int,
                                            ..hold
                                        };
                                        let written = Books {
                                            wallets,
                                            holds: stored(books.holds, input.hold_id@, settled),
                                            budgets,
                                            links: stored(books.links, marker, input.hold_id@),
                                            ..books
                                        };
                                        let entry = Entry {
                                            kind: "hold.settled"@,
                                            hold_id: input.hold_id@,
                                            payer_user_id: payer,
                                            created_at: now as int,
                                            payload: settled_payload(
                                                input,
                                                seq![
                                                    posting(wallet_account(payer, ":held"@), -max),
                                                    posting(
                                                        wallet_account(payer, ":available"@),
                                                        refund,
                                                    ),
                                                ] + credit_postings(books.wallets, tally.users),
                                                tally.sum,
                                                refund,
                                            ),
                                        };
                                        Ok(
                                            (
                                                journaled(
                                                    written,
                                                    journal_id,
                                                    entry,
                                                    seq![payer, authority] + keys_of(tally.users),
                                                ),
                                                HoldAnswer {
                                                    applied: true,
                                                    hold: settled,
                                                    journal_id: Some(journal_id),
                                                },
                                            ),
                                        )
                                    },
                                },
                            }
                        },
                    }
                },
            },
        }
    }
}

fn refuse_settlement(hold: &Hold, authority: &str, input: &SettleHoldInput, now: i64) -> (r: Result<
    Table<i64>,
    String,
>)
    ensures
        match r {
            Ok(caps) => settlement_refusal(hold@, authority@, *input, now) is None && caps@
                == caps_of(hold@.beneficiaries->0),
            Err(e) => settlement_refusal(hold@, authority@, *input, now) == Some(e@),
        },
{
    if !same(hold.status.as_str(), "running") {
        return Err("hold is not running".to_owned());
    }
    if !same(hold.payer_user_id.as_str(), input.payer_user_id.as_str()) {
        return Err("payer does not match hold".to_owned());
    }
    if !same(hold.quote_id.as_str(), input.quote_id.as_str()) {
        return Err("quote does not match hold".to_owned());
    }
    if !same(hold.run_id.as_str(), input.settlement_id.as_str()) {
        return Err("settlement does not match authorized run".to_owned());
    }
    if !same(hold.settlement_authority.as_str(), authority) {
        return Err("caller is not the settlement authority".to_owned());
    }
    if hold.expires_at <= 0 || now > hold.expires_at {
        return Err("hold expired".to_owned());
    }
    if hold.max_amount <= 0 {
        return Err("invalid hold amount".to_owned());
    }
    match &hold.beneficiaries {
        None => Err("hold beneficiaries missing".to_owned()),
        Some(plan) => match plan_caps(plan, true) {
            Some(caps) => Ok(caps),
            None => Err("invalid hold beneficiary".to_owned()),
        },
    }
}

/// The debts that the credits meet are readable, and no other figure of the wallets but
/// the payer's spending changed before them.
proof fn lemma_debts_readable(
    wallets: Rows<Wallet>,
    payer: Seq<char>,
    spender: Wallet,
    users: Rows<i64>,
    missing: Seq<char>,
)
    requires
        spender.debt == wallet_of(wallets, payer).debt,
        all_credited(stored(wallets, payer, spender), users, missing) is Ok,
    ensures
        forall|i: int|
            0 <= i < users.len() ==> wallet_of(wallets, (#[trigger] users[i]).0).debt >= 0,
    decreases users.len(),
{
    let start = stored(wallets, payer, spender);
    if users.len() > 0 {
        let front = users.drop_last();
        let (user, amount) = users.last();
        lemma_debts_readable(wallets, payer, spender, front, missing);
        let before = all_credited(start, front, missing)->Ok_0;
        lemma_debt_after_credits(start, front, missing, user);
        assert forall|i: int| 0 <= i < users.len() implies wallet_of(
            wallets,
            (#[trigger] users[i]).0,
        ).debt >= 0 by {
            if i < front.len() {
                assert(users[i] == front[i]);
            }
        }
    }
}

/// A readable debt stays readable through credits, and a debt that cannot be read stays
/// so.
proof fn lemma_debt_after_credits(
    wallets: Rows<Wallet>,
    users: Rows<i64>,
    missing: Seq<char>,
    user: Seq<char>,
)
    requires
        all_credited(wallets, users, missing) is Ok,
    ensures
        ({
            let after = all_credited(wallets, users, missing)->Ok_0;
            wallet_of(after, user).debt >= 0 ==> wallet_of(wallets, user).debt >= 0
        }),
    decreases users.len(),
{
    if users.len() > 0 {
        lemma_debt_after_credits(wallets, users.drop_last(), missing, user);
    }
}

fn settle_wallets(
    wallets: &Table<Wallet>,
    payer: &str,
    users: &Table<i64>,
    sum: i64,
    max: i64,
    back: i64,
) -> (r: Result<Table<Wallet>, String>)
    requires
        0 <= sum <= max,
        forall|i: int| 0 <= i < users@.len() ==> (#[trigger] users@[i]).1 >= 0,
    ensures
        ({
            let spec_result = settled_wallets(
                wallets@,
                payer@,
                Tally { sum: sum as int, roles: Seq::empty(), users: users@ },
                max as int,
                back as int,
            );
            match r {
                Ok(next) => spec_result == Ok::<Rows<Wallet>, Seq<char>>(next@) && forall|i: int|
                    0 <= i < users@.len() ==> wallet_of(wallets@, (#[trigger] users@[i]).0).debt
                        >= 0,
                Err(e) => spec_result == Err::<Rows<Wallet>, Seq<char>>(e@),
            }
        }),
{
    let mut next = wallets.copy();
    let w = wallet_in(wallets, payer);
    let spender = match charge_wallet(w, sum) {
        Ok(spender) => spender,
        Err(e) => {
            return Err(e);
        },
    };
    next.put(payer, spender);
    match credit_users(&mut next, users, "settlement beneficiary not found") {
        Err(e) => {
            return Err(e);
        },
        Ok(_) => {},
    }
    proof {
        lemma_debts_readable(wallets@, payer@, spender, users@, Rules::Hold.missing());
    }
    let w = wallet_in(&next, payer);
    match give_funds_back(w, max - sum, back, max) {
        Err(e) => Err(e),
        Ok(w) => {
            next.put(payer, w);
            Ok(next)
        },
    }
}

/// Pay out what a run used from its hold, and give the rest back to the payer.
pub fn settle_hold(
    ledger: &mut Ledger,
    authority: &str,
    input: &SettleHoldInput,
    now: i64,
    journal_id: &str,
) -> (r: Result<HoldReply, String>)
    ensures
        match r {
            Ok(reply) => hold_settled(old(ledger)@, authority@, *input, now, journal_id@) == Ok::<
                (Books, HoldAnswer),
                Seq<char>,
            >((final(ledger)@, reply@)),
            Err(e) => final(ledger)@ == old(ledger)@ && hold_settled(
                old(ledger)@,
                authority@,
                *input,
                now,
                journal_id@,
            ) == Err::<(Books, HoldAnswer), Seq<char>>(e@),
        },
{
    let hold_id = input.hold_id.as_str();
    let payer = input.payer_user_id.as_str();
    if !valid_finance_id(hold_id) || !valid_finance_id(payer) || !valid_finance_id(
        input.quote_id.as_str(),
    ) || !valid_finance_id(input.settlement_id.as_str()) || !valid_finance_hash(
        input.usage_hash.as_str(),
    ) {
        return Err("invalid settlement identifiers or usageHash".to_owned());
    }
    let marker = join4("FinanceSettlement::", authority, "::", input.settlement_id.as_str());
    let previous = ledger.link(marker.as_str());
    if !previous.as_str().is_empty() {
        if !same(previous.as_str(), hold_id) {
            return Err("settlement id already used for another hold".to_owned());
        }
        return replay(&*ledger, hold_id);
    }
    let mut hold = match ledger.holds.get(hold_id) {
        Some(hold) => hold.copy(),
        None => {
            return Err("hold not found".to_owned());
        },
    };
    let caps = match refuse_settlement(&hold, authority, input, now) {
        Ok(caps) => caps,
        Err(e) => {
            return Err(e);
        },
    };
    let tally = match tally_lines(&input.lines, &caps, payer, Rules::Hold) {
        Ok(tally) => tally,
        Err(e) => {
            return Err(e);
        },
    };
    proof {
        law_a_tally_adds_up(lines_of(input.lines@), caps@, payer@, Rules::Hold);
        lemma_rows_positive(tally.users@, tally.sum as int);
    }
    let max: i64 = hold.max_amount;
    if tally.sum > max {
        return Err("settlement exceeds hold".to_owned());
    }
    let refund: i64 = max - tally.sum;
    let back: i64 = if refund <= hold.withdrawable_amount {
        refund
    } else {
        hold.withdrawable_amount
    };
    let budget = match finalize_project_budget(
        &ledger.budgets,
        hold.project_id.as_str(),
        max,
        tally.sum,
        now,
    ) {
        Ok(budget) => budget,
        Err(e) => {
            return Err(e);
        },
    };
    let wallets = match settle_wallets(&ledger.wallets, payer, &tally.users, tally.sum, max, back) {
        Ok(wallets) => wallets,
        Err(e) => {
            return Err(e);
        },
    };
    let mut entries: Vec<Json> = Vec::new();
    assert(items_of(entries@) =~= Seq::empty());
    add_posting(&mut entries, write_posting(join3("wallet:", payer, ":held").as_str(), -max));
    add_posting(&mut entries, write_posting(join3("wallet:", payer, ":available").as_str(), refund));
    assert(items_of(entries@) =~= seq![
        posting(wallet_account(payer@, ":held"@), -(max as int)),
        posting(wallet_account(payer@, ":available"@), refund as int),
    ]);
    post_credits(&mut entries, &ledger.wallets, &tally.users);
    hold.status = "settled".to_owned();
    hold.remaining_amount = 0;
    hold.actual_amount = tally.sum;
    hold.refunded_amount = refund;
    hold.withdrawable_refunded_amount = back;
    hold.withdrawable_spent_amount = hold.withdrawable_amount - back;
    hold.settlement_id = input.settlement_id.clone();
    hold.usage_hash = input.usage_hash.clone();
    hold.settlement_lines = copy_lines(&input.lines);
    hold.finalized_at = now;
    let reply = HoldReply {
        applied: true,
        hold: hold.copy(),
        journal_id: Some(journal_id.to_owned()),
    };
    match budget {
        Some(state) => {
            ledger.budgets.put(hold.project_id.as_str(), state);
        },
        None => {},
    }
    ledger.wallets = wallets;
    ledger.holds.put(hold_id, hold);
    ledger.links.put(marker.as_str(), hold_id.to_owned());
    let entry = JournalEntry {
        kind: "hold.settled".to_owned(),
        hold_id: hold_id.to_owned(),
        payer_user_id: payer.to_owned(),
        created_at: now,
        payload: write_settled(input, entries, tally.sum, refund),
    };
    let mut participants = pair(payer, authority);
    add_participants(&mut participants, &tally.users);
    ledger.write_finance_journal(journal_id, entry, &participants);
    Ok(reply)
}

// ---------------------------------------------------------------- release

/// A request to give a hold back to its payer.
pub struct ReleaseHoldInput {
    pub hold_id: String,
    pub payer_user_id: String,
    pub release_id: String,
    pub reason: String,
}

/// The marker that makes a release idempotent.
pub open spec fn release_marker(caller: Seq<char>, id: Seq<char>) -> Seq<char> {
    "FinanceRelease::"@ + caller + "::"@ + id
}

/// Whether the caller may release a hold: the settlement authority always may, and the
/// payer may while no run has started or once the hold is past.
pub open spec fn may_release(hold: HoldState, caller: Seq<char>, now: i64) -> bool {
    ||| caller == hold.settlement_authority
    ||| caller == hold.payer_user_id && (hold.status == "open"@ || now >= hold.expires_at)
}

/// What releasing a hold does.
pub open spec fn hold_released(
    books: Books,
    caller: Seq<char>,
    input: ReleaseHoldInput,
    now: i64,
    journal_id: Seq<char>,
) -> HoldOutcome {
    let payer = input.payer_user_id@;
    let marker = release_marker(caller, input.release_id@);
    let previous = link_of(books.links, marker);
    if !is_finance_id(input.hold_id@) || !is_finance_id(payer) || !is_finance_id(input.release_id@)
        || encode_utf8(input.reason@).len() > 256 {
        Err("invalid release request"@)
    } else if previous.len() > 0 {
        if previous != input.hold_id@ {
            Err("release id already used for another hold"@)
        } else {
            replayed(books, input.hold_id@)
        }
    } else {
        match lookup(books.holds, input.hold_id@) {
            None => Err("hold not found"@),
            Some(hold) => if hold.status != "open"@ && hold.status != "running"@ {
                Err("hold is not active"@)
            } else if hold.payer_user_id != payer {
                Err("payer does not match hold"@)
            } else if !may_release(hold, caller, now) {
                Err("only the authority may release an active hold"@)
            } else if hold.max_amount <= 0 {
                Err("invalid hold amount"@)
            } else {
                let max = hold.max_amount;
                let back = hold.withdrawable_amount;
                match finalized_budget(books.budgets, hold.project_id, max as i64, 0, now) {
                    Err(e) => Err(e),
                    Ok(budgets) => match given_back(
                        wallet_of(books.wallets, payer),
                        max,
                        back,
                        max,
                    ) {
                        Err(e) => Err(e),
                        Ok(w) => {
                            let status = if now >= hold.expires_at {
                                "expired"@
                            } else {
                                "released"@
                            };
                            let released = HoldState {
                                status,
                                remaining_amount: 0,
                                refunded_amount: max,
                                withdrawable_refunded_amount: back,
                                release_id: input.release_id@,
                                release_reason: input.reason@,
                                finalized_at: now as int,
                                ..hold
                            };
                            let written = Books {
                                wallets: stored(books.wallets, payer, w),
                                holds: stored(books.holds, input.hold_id@, released),
                                budgets,
                                links: stored(books.links, marker, input.hold_id@),
                                ..books
                            };
                            let entry = Entry {
                                kind: "hold.released"@,
                                hold_id: input.hold_id@,
                                payer_user_id: payer,
                                created_at: now as int,
                                payload: posted(
                                    seq![
                                        (wallet_account(payer, ":held"@), -max),
                                        (wallet_account(payer, ":available"@), max),
                                    ],
                                ).with("status"@, Tree::Text(status)).with(
                                    "reason"@,
                                    Tree::Text(input.reason@),
                                ),
                            };
                            Ok(
                                (
                                    journaled(
                                        written,
                                        journal_id,
                                        entry,
                                        seq![payer, hold.settlement_authority],
                                    ),
                                    HoldAnswer {
                                        applied: true,
                                        hold: released,
                                        journal_id: Some(journal_id),
                                    },
                                ),
                            )
                        },
                    },
                }
            },
        }
    }
}

/// Give an active hold back to its payer.
pub fn release_hold(
    ledger: &mut Ledger,
    caller: &str,
    input: &ReleaseHoldInput,
    now: i64,
    journal_id: &str,
) -> (r: Result<HoldReply, String>)
    ensures
        match r {
            Ok(reply) => hold_released(old(ledger)@, caller@, *input, now, journal_id@) == Ok::<
                (Books, HoldAnswer),
                Seq<char>,
            >((final(ledger)@, reply@)),
            Err(e) => final(ledger)@ == old(ledger)@ && hold_released(
                old(ledger)@,
                caller@,
                *input,
                now,
                journal_id@,
            ) == Err::<(Books, HoldAnswer), Seq<char>>(e@),
        },
{
    let hold_id = input.hold_id.as_str();
    let payer = input.payer_user_id.as_str();
    if !valid_finance_id(hold_id) || !valid_finance_id(payer) || !valid_finance_id(
        input.release_id.as_str(),
    ) || input.reason.as_str().as_bytes().len() > 256 {
        return Err("invalid release request".to_owned());
    }
    let marker = join4("FinanceRelease::", caller, "::", input.release_id.as_str());
    let previous = ledger.link(marker.as_str());
    if !previous.as_str().is_empty() {
        if !same(previous.as_str(), hold_id) {
            return Err("release id already used for another hold".to_owned());
        }
        return replay(&*ledger, hold_id);
    }
    let mut hold = match ledger.holds.get(hold_id) {
        Some(hold) => hold.copy(),
        None => {
            return Err("hold not found".to_owned());
        },
    };
    let open = same(hold.status.as_str(), "open");
    if !open && !same(hold.status.as_str(), "running") {
        return Err("hold is not active".to_owned());
    }
    if !same(hold.payer_user_id.as_str(), payer) {
        return Err("payer does not match hold".to_owned());
    }
    let past = now >= hold.expires_at;
    if !same(caller, hold.settlement_authority.as_str()) && !(same(caller, payer) && (open || past)) {
        return Err("only the authority may release an active hold".to_owned());
    }
    let max: i64 = hold.max_amount;
    if max <= 0 {
        return Err("invalid hold amount".to_owned());
    }
    let back: i64 = hold.withdrawable_amount;
    let budget = match finalize_project_budget(
        &ledger.budgets,
        hold.project_id.as_str(),
        max,
        0,
        now,
    ) {
        Ok(budget) => budget,
        Err(e) => {
            return Err(e);
        },
    };
    let w = match give_funds_back(wallet_in(&ledger.wallets, payer), max, back, max) {
        Ok(w) => w,
        Err(e) => {
            return Err(e);
        },
    };
    let status = if past {
        "expired".to_owned()
    } else {
        "released".to_owned()
    };
    hold.status = status.clone();
    hold.remaining_amount = 0;
    hold.refunded_amount = max;
    hold.withdrawable_refunded_amount = back;
    hold.release_id = input.release_id.clone();
    hold.release_reason = input.reason.clone();
    hold.finalized_at = now;
    let reply = HoldReply {
        applied: true,
        hold: hold.copy(),
        journal_id: Some(journal_id.to_owned()),
    };
    match budget {
        Some(state) => {
            ledger.budgets.put(hold.project_id.as_str(), state);
        },
        None => {},
    }
    let participants = pair(payer, hold.settlement_authority.as_str());
    ledger.wallets.put(payer, w);
    ledger.holds.put(hold_id, hold);
    ledger.links.put(marker.as_str(), hold_id.to_owned());
    let mut amounts: Vec<(String, i64)> = Vec::new();
    amounts.push((join3("wallet:", payer, ":held"), -max));
    amounts.push((join3("wallet:", payer, ":available"), max));
    assert(amounts_of(amounts@) =~= seq![
        (wallet_account(payer@, ":held"@), -(max as int)),
        (wallet_account(payer@, ":available"@), max as int),
    ]);
    let entry = JournalEntry {
        kind: "hold.released".to_owned(),
        hold_id: hold_id.to_owned(),
        payer_user_id: payer.to_owned(),
        created_at: now,
        payload: write_posted(&amounts).with("status", Json::Text(status)).with(
            "reason",
            Json::Text(input.reason.clone()),
        ),
    };
    ledger.write_finance_journal(journal_id, entry, &participants);
    Ok(reply)
}

// ---------------------------------------------------------------- read

/// A request to read a hold; an empty payer matches any.
pub struct GetHoldInput {
    pub hold_id: String,
    pub payer_user_id: String,
}

/// Whether a user is among the beneficiaries of a hold.
pub open spec fn is_beneficiary(hold: HoldState, user: Seq<char>) -> bool {
    match hold.beneficiaries {
        Some(plan) => exists|i: int| 0 <= i < plan.len() && (#[trigger] plan[i]).user_id == user,
        None => false,
    }
}

/// What reading a hold answers. The payer, the settlement authority and every beneficiary
/// may read it.
pub open spec fn hold_shown(books: Books, caller: Seq<char>, input: GetHoldInput) -> Result<
    HoldState,
    Seq<char>,
> {
    if !is_finance_id(input.hold_id@) {
        Err("invalid hold id"@)
    } else {
        match lookup(books.holds, input.hold_id@) {
            None => Err("hold not found"@),
            Some(hold) => if input.payer_user_id@.len() > 0 && input.payer_user_id@
                != hold.payer_user_id {
                Err("payer does not match hold"@)
            } else if caller != hold.payer_user_id && caller != hold.settlement_authority
                && !is_beneficiary(hold, caller) {
                Err("access denied"@)
            } else {
                Ok(hold)
            },
        }
    }
}

fn pays(hold: &Hold, user: &str) -> (r: bool)
    ensures
        r == is_beneficiary(hold@, user@),
{
    match &hold.beneficiaries {
        None => false,
        Some(plan) => {
            let ghost list = beneficiaries_of(plan@);
            let mut i: usize = 0;
            while i < plan.len()
                invariant
                    i <= plan@.len(),
                    list == beneficiaries_of(plan@),
                    hold@.beneficiaries == Some(list),
                    forall|j: int| 0 <= j < i ==> (#[trigger] list[j]).user_id != user@,
                decreases plan.len() - i,
            {
                assert(list[i as int] == plan@[i as int]@);
                if same(plan[i].user_id.as_str(), user) {
                    assert(hold@.beneficiaries->0[i as int].user_id == user@);
                    assert(is_beneficiary(hold@, user@));
                    return true;
                }
                i = i + 1;
            }
            false
        },
    }
}

/// Read a hold.
pub fn get_hold(ledger: &Ledger, caller: &str, input: &GetHoldInput) -> (r: Result<Hold, String>)
    ensures
        match r {
            Ok(hold) => hold_shown(ledger@, caller@, *input) == Ok::<HoldState, Seq<char>>(hold@),
            Err(e) => hold_shown(ledger@, caller@, *input) == Err::<HoldState, Seq<char>>(e@),
        },
{
    if !valid_finance_id(input.hold_id.as_str()) {
        return Err("invalid hold id".to_owned());
    }
    let hold = match ledger.holds.get(input.hold_id.as_str()) {
        Some(hold) => hold,
        None => {
            return Err("hold not found".to_owned());
        },
    };
    if !input.payer_user_id.as_str().is_empty() && !same(
        input.payer_user_id.as_str(),
        hold.payer_user_id.as_str(),
    ) {
        return Err("payer does not match hold".to_owned());
    }
    if !same(caller, hold.payer_user_id.as_str()) && !same(
        caller,
        hold.settlement_authority.as_str(),
    ) && !pays(hold, caller) {
        return Err("access denied".to_owned());
    }
    Ok(hold.copy())
}

} // verus!
