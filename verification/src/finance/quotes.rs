//! Quotes: what a run will cost at most, who is paid for it, and where it executes.
use vstd::prelude::*;

use crate::finance::holds::FINANCE_MAX_BENEFICIARIES;
use crate::finance::ids::{is_finance_id, valid_finance_id};
use crate::finance::ledger::{Books, Ledger, Wallet};
use crate::finance::market::{
    account_exists, check_record, federated_finance_safe_numbers, has_account,
    has_fields, has_safe_numbers, is_published, node_has, node_text, quoted_resource_refusal,
    read_whole, record_refusal, validate_federated_quote_resource, whole_or_zero, Market, Stalls,
};
use crate::json::{items_of, Json, Tree};
use crate::outside::{json_bytes, json_encode};
use crate::table::{law_lookup_after_store, lookup, stored, Rows, Table};
use crate::text::{contains_text, listed, same, texts};

verus! {

broadcast use {vstd::string::group_string_axioms, law_lookup_after_store};

/// The object in a field.
pub open spec fn part(quote: Tree, key: Seq<char>) -> Option<Tree> {
    match quote.field(key) {
        Some(value) => if value is Object {
            Some(value)
        } else {
            None
        },
        None => None,
    }
}

fn read_part<'a>(quote: &'a Json, key: &str) -> (r: Option<&'a Json>)
    ensures
        match r {
            Some(value) => part(quote@, key@) == Some(value@),
            None => part(quote@, key@) is None,
        },
{
    match quote.field(key) {
        Some(value) => if value.is_object() {
            Some(value)
        } else {
            None
        },
        None => None,
    }
}

/// Whether the parties of a quote are those that may issue, coordinate and pay for it: the
/// catalog in force prices it, the issuing and the coordinating node are active, the
/// coordinating node meters it, and its hold request says the same.
pub open spec fn is_quote_header(
    stalls: Stalls,
    wallets: Rows<Wallet>,
    caller: Seq<char>,
    quote: Tree,
    hold: Tree,
    execution: Tree,
) -> bool {
    let quote_id = quote.text_or_empty("quoteId"@);
    let payer = quote.text_or_empty("payerUserId"@);
    let amount = whole_or_zero(quote, "maxAmount"@);
    let kind = quote.text_or_empty("kind"@);
    let talent = kind == "talent"@;
    let version = quote.text_or_empty("pricingVersion"@);
    let authority = execution.text_or_empty("settlementAuthority"@);
    let meter = execution.text_or_empty("meterProgramId"@);
    &&& is_finance_id(quote_id)
    &&& is_finance_id(payer)
    &&& kind == "agent"@ || kind == "tool"@ || talent
    &&& stalls.current.text("version"@) == Some(version)
    &&& version.len() > 0
    &&& is_published(stalls, version)
    &&& amount > 0
    &&& talent ==> authority == caller
    &&& node_text(stalls.nodes, caller, "status"@) == Some("active"@)
    &&& node_text(stalls.nodes, authority, "status"@) == Some("active"@)
    &&& node_text(
        stalls.nodes,
        authority,
        if talent {
            "talentMeterProgramId"@
        } else {
            "meterProgramId"@
        },
    ) == Some(meter)
    &&& !talent ==> node_text(stalls.nodes, authority, "meterCreatureId"@) == Some(
        execution.text_or_empty("meterCreatureId"@),
    )
    &&& !talent ==> node_text(stalls.nodes, authority, "meterEntityId"@) == Some(
        execution.text_or_empty("meterEntityId"@),
    )
    &&& hold.text("quoteId"@) == Some(quote_id)
    &&& hold.whole("maxAmount"@) == Some(amount)
    &&& hold.text("settlementAuthority"@) == Some(authority)
    &&& hold.text("meterProgramId"@) == Some(meter)
    &&& has_account(wallets, payer)
    &&& has_account(wallets, caller)
    &&& has_safe_numbers(quote)
}

fn check_quote_header(
    market: &Market,
    wallets: &Table<Wallet>,
    caller: &str,
    quote: &Json,
    hold: &Json,
    execution: &Json,
) -> (r: bool)
    ensures
        r == is_quote_header(market@, wallets@, caller@, quote@, hold@, execution@),
{
    let quote_id = quote.text_or_empty("quoteId");
    let payer = quote.text_or_empty("payerUserId");
    let amount: i64 = read_whole(quote, "maxAmount");
    let kind = quote.text_or_empty("kind");
    let talent = same(kind, "talent");
    let version = quote.text_or_empty("pricingVersion");
    let authority = execution.text_or_empty("settlementAuthority");
    let meter = execution.text_or_empty("meterProgramId");
    if !valid_finance_id(quote_id) || !valid_finance_id(payer) {
        return false;
    }
    if !same(kind, "agent") && !same(kind, "tool") && !talent {
        return false;
    }
    if !market.current.has_text("version", version) || version.is_empty() {
        return false;
    }
    let published = match market.catalogs.get(version) {
        Some(existing) => has_fields(existing),
        None => false,
    };
    if !published || amount <= 0 {
        return false;
    }
    if talent && !same(authority, caller) {
        return false;
    }
    if !node_has(&market.nodes, caller, "status", "active") || !node_has(
        &market.nodes,
        authority,
        "status",
        "active",
    ) {
        return false;
    }
    let meter_field: &str = if talent {
        "talentMeterProgramId"
    } else {
        "meterProgramId"
    };
    if !node_has(&market.nodes, authority, meter_field, meter) {
        return false;
    }
    if !talent && (!node_has(
        &market.nodes,
        authority,
        "meterCreatureId",
        execution.text_or_empty("meterCreatureId"),
    ) || !node_has(
        &market.nodes,
        authority,
        "meterEntityId",
        execution.text_or_empty("meterEntityId"),
    )) {
        return false;
    }
    let hold_amount = hold.whole("maxAmount");
    hold.has_text("quoteId", quote_id) && hold_amount.is_some() && hold_amount.unwrap() == amount
        && hold.has_text("settlementAuthority", authority) && hold.has_text("meterProgramId", meter)
        && account_exists(wallets, payer) && account_exists(wallets, caller)
        && federated_finance_safe_numbers(quote)
}

/// The identifiers of the first `n` execution resources.
pub open spec fn resource_ids(resources: Seq<Tree>) -> Seq<Seq<char>> {
    resources.map_values(|row: Tree| row.text_or_empty("resourceId"@))
}

/// Why the resource at position `index` cannot be executed as quoted.
pub open spec fn row_refusal(
    stalls: Stalls,
    quote: Tree,
    resources: Seq<Tree>,
    index: int,
) -> Option<Seq<char>> {
    let row = resources[index];
    let id = row.text_or_empty("resourceId"@);
    if !(row is Object) {
        Some("invalid quote execution resource"@)
    } else if quoted_resource_refusal(stalls, row) is Some {
        quoted_resource_refusal(stalls, row)
    } else if listed(resource_ids(resources.subrange(0, index)), id) {
        Some("duplicate quote execution resource"@)
    } else if index == 0 && (row.text("kind"@) != Some(quote.text_or_empty("kind"@)) || id
        != quote.text_or_empty("resourceId"@)) {
        Some("quote coordinator resource mismatch"@)
    } else {
        None
    }
}

/// Why the resources from position `from` on cannot be executed as quoted: the refusal of
/// the first that cannot.
pub open spec fn rows_refusal(
    stalls: Stalls,
    quote: Tree,
    resources: Seq<Tree>,
    from: int,
) -> Option<Seq<char>>
    decreases resources.len() - from,
{
    if from < 0 || from >= resources.len() {
        None
    } else if row_refusal(stalls, quote, resources, from) is Some {
        row_refusal(stalls, quote, resources, from)
    } else {
        rows_refusal(stalls, quote, resources, from + 1)
    }
}

/// Why the execution plan of a quote is refused. A talent quote executes nothing; every
/// other quote executes one to nine resources, the first of which coordinates.
pub open spec fn execution_refusal(stalls: Stalls, quote: Tree, execution: Tree) -> Option<Seq<char>> {
    match execution.items("resources"@) {
        None => Some("quote execution resources missing"@),
        Some(resources) => if quote.text_or_empty("kind"@) == "talent"@ {
            if resources.len() > 0 {
                Some("talent quote cannot contain execution resources"@)
            } else {
                None
            }
        } else if resources.len() == 0 || resources.len() > 9 {
            Some("invalid quote execution resource count"@)
        } else if rows_refusal(stalls, quote, resources, 0) is Some {
            rows_refusal(stalls, quote, resources, 0)
        } else if !coordinates(resources[0], execution) {
            Some("quote coordinator execution mismatch"@)
        } else {
            None
        },
    }
}

/// Whether a resource is executed by the coordinating node of a quote.
pub open spec fn coordinates(row: Tree, execution: Tree) -> bool {
    &&& row.text("settlementAuthority"@) == Some(execution.text_or_empty("settlementAuthority"@))
    &&& row.text("meterProgramId"@) == Some(execution.text_or_empty("meterProgramId"@))
    &&& row.text("meterCreatureId"@) == Some(execution.text_or_empty("meterCreatureId"@))
    &&& row.text("meterEntityId"@) == Some(execution.text_or_empty("meterEntityId"@))
}

fn refuse_rows(market: &Market, quote: &Json, resources: &Vec<Json>) -> (r: Option<String>)
    ensures
        match r {
            Some(e) => rows_refusal(market@, quote@, items_of(resources@), 0) == Some(e@),
            None => rows_refusal(market@, quote@, items_of(resources@), 0) is None,
        },
{
    let ghost rows = items_of(resources@);
    let mut seen: Vec<String> = Vec::new();
    let mut i: usize = 0;
    assert(texts(seen@) =~= resource_ids(rows.subrange(0, 0)));
    while i < resources.len()
        invariant
            i <= resources@.len(),
            rows == items_of(resources@),
            texts(seen@) == resource_ids(rows.subrange(0, i as int)),
            rows_refusal(market@, quote@, rows, 0) == rows_refusal(
                market@,
                quote@,
                rows,
                i as int,
            ),
        decreases resources@.len() - i,
    {
        let row = &resources[i];
        assert(rows[i as int] == row@);
        if !row.is_object() {
            return Some("invalid quote execution resource".to_owned());
        }
        match validate_federated_quote_resource(market, row) {
            Some(e) => {
                return Some(e);
            },
            None => {},
        }
        let id = row.text_or_empty("resourceId");
        if contains_text(&seen, id) {
            return Some("duplicate quote execution resource".to_owned());
        }
        if i == 0 && (!row.has_text("kind", quote.text_or_empty("kind")) || !same(
            id,
            quote.text_or_empty("resourceId"),
        )) {
            return Some("quote coordinator resource mismatch".to_owned());
        }
        let ghost before = seen@;
        seen.push(id.to_owned());
        assert(texts(seen@) =~= texts(before).push(id@));
        assert(rows.subrange(0, i + 1) =~= rows.subrange(0, i as int).push(row@));
        assert(resource_ids(rows.subrange(0, i + 1)) =~= resource_ids(
            rows.subrange(0, i as int),
        ).push(id@));
        i = i + 1;
    }
    None
}

fn refuse_execution(market: &Market, quote: &Json, execution: &Json) -> (r: Option<String>)
    ensures
        match r {
            Some(e) => execution_refusal(market@, quote@, execution@) == Some(e@),
            None => execution_refusal(market@, quote@, execution@) is None,
        },
{
    let resources = match execution.items("resources") {
        Some(resources) => resources,
        None => {
            return Some("quote execution resources missing".to_owned());
        },
    };
    if same(quote.text_or_empty("kind"), "talent") {
        if resources.len() > 0 {
            return Some("talent quote cannot contain execution resources".to_owned());
        }
        return None;
    }
    if resources.len() == 0 || resources.len() > 9 {
        return Some("invalid quote execution resource count".to_owned());
    }
    match refuse_rows(market, quote, resources) {
        Some(e) => {
            return Some(e);
        },
        None => {},
    }
    let first = &resources[0];
    assert(items_of(resources@)[0] == first@);
    if !first.has_text("settlementAuthority", execution.text_or_empty("settlementAuthority"))
        || !first.has_text("meterProgramId", execution.text_or_empty("meterProgramId"))
        || !first.has_text("meterCreatureId", execution.text_or_empty("meterCreatureId"))
        || !first.has_text("meterEntityId", execution.text_or_empty("meterEntityId")) {
        return Some("quote coordinator execution mismatch".to_owned());
    }
    None
}

/// What the caps of a quote add up to, or why one of its beneficiaries is refused.
pub open spec fn caps_total(rows: Seq<Tree>, wallets: Rows<Wallet>) -> Result<int, Seq<char>>
    decreases rows.len(),
{
    if rows.len() == 0 {
        Ok(0)
    } else {
        match caps_total(rows.drop_last(), wallets) {
            Err(e) => Err(e),
            Ok(sum) => {
                let row = rows.last();
                let user = row.text_or_empty("userId"@);
                let amount = whole_or_zero(row, "maxAmount"@);
                if !(row is Object) || !is_finance_id(user) || amount <= 0 || !has_account(
                    wallets,
                    user,
                ) {
                    Err("invalid quote beneficiary"@)
                } else if sum + amount > i64::MAX {
                    Err("quote beneficiary overflow"@)
                } else {
                    Ok(sum + amount)
                }
            },
        }
    }
}

/// Why the beneficiaries of a quote are refused: their caps must add up to its amount.
pub open spec fn beneficiaries_refusal(wallets: Rows<Wallet>, quote: Tree, hold: Tree) -> Option<
    Seq<char>,
> {
    match hold.items("beneficiaries"@) {
        None => Some("quote beneficiaries missing"@),
        Some(rows) => if rows.len() == 0 || rows.len() > FINANCE_MAX_BENEFICIARIES {
            Some("invalid quote beneficiary count"@)
        } else {
            match caps_total(rows, wallets) {
                Err(e) => Some(e),
                Ok(sum) => if sum != whole_or_zero(quote, "maxAmount"@) {
                    Some("quote caps do not equal maxAmount"@)
                } else {
                    None
                },
            }
        },
    }
}

proof fn lemma_caps_refused_later(rows: Seq<Tree>, n: int, wallets: Rows<Wallet>)
    requires
        0 <= n <= rows.len(),
    ensures
        caps_total(rows.subrange(0, n), wallets) matches Err(e) ==> caps_total(rows, wallets)
            == Err::<int, Seq<char>>(e),
    decreases rows.len() - n,
{
    if n == rows.len() {
        assert(rows.subrange(0, n) =~= rows);
    } else {
        assert(rows.subrange(0, n + 1).drop_last() =~= rows.subrange(0, n));
        lemma_caps_refused_later(rows, n + 1, wallets);
    }
}

fn refuse_beneficiaries(wallets: &Table<Wallet>, quote: &Json, hold: &Json) -> (r: Option<String>)
    ensures
        match r {
            Some(e) => beneficiaries_refusal(wallets@, quote@, hold@) == Some(e@),
            None => beneficiaries_refusal(wallets@, quote@, hold@) is None,
        },
{
    let beneficiaries = match hold.items("beneficiaries") {
        Some(rows) => rows,
        None => {
            return Some("quote beneficiaries missing".to_owned());
        },
    };
    if beneficiaries.len() == 0 || beneficiaries.len() > FINANCE_MAX_BENEFICIARIES {
        return Some("invalid quote beneficiary count".to_owned());
    }
    let ghost rows = items_of(beneficiaries@);
    let mut sum: i64 = 0;
    let mut i: usize = 0;
    assert(rows.subrange(0, 0) =~= Seq::empty());
    while i < beneficiaries.len()
        invariant
            i <= beneficiaries@.len(),
            0 < beneficiaries@.len() <= FINANCE_MAX_BENEFICIARIES,
            rows == items_of(beneficiaries@),
            hold@.items("beneficiaries"@) == Some(rows),
            sum >= 0,
            caps_total(rows.subrange(0, i as int), wallets@) == Ok::<int, Seq<char>>(sum as int),
        decreases beneficiaries@.len() - i,
    {
        let row = &beneficiaries[i];
        proof {
            let upto = rows.subrange(0, i + 1);
            assert(upto.drop_last() =~= rows.subrange(0, i as int));
            assert(upto.last() == row@);
            lemma_caps_refused_later(rows, i + 1, wallets@);
        }
        let user = row.text_or_empty("userId");
        let amount: i64 = read_whole(row, "maxAmount");
        if !row.is_object() || !valid_finance_id(user) || amount <= 0 || !account_exists(
            wallets,
            user,
        ) {
            return Some("invalid quote beneficiary".to_owned());
        }
        sum = match sum.checked_add(amount) {
            Some(v) => v,
            None => {
                return Some("quote beneficiary overflow".to_owned());
            },
        };
        i = i + 1;
    }
    assert(rows.subrange(0, rows.len() as int) =~= rows);
    if sum != read_whole(quote, "maxAmount") {
        return Some("quote caps do not equal maxAmount".to_owned());
    }
    None
}

/// Why a quote cannot be published, whether or not it was published before.
pub open spec fn quote_refusal(
    stalls: Stalls,
    wallets: Rows<Wallet>,
    caller: Seq<char>,
    quote: Tree,
    encoded_size: int,
) -> Option<Seq<char>> {
    if record_refusal(quote, encoded_size, "finance quote"@) is Some {
        record_refusal(quote, encoded_size, "finance quote"@)
    } else if part(quote, "holdRequest"@) is None {
        Some("quote holdRequest missing"@)
    } else if part(quote, "executionPlan"@) is None {
        Some("quote executionPlan missing"@)
    } else {
        let hold = part(quote, "holdRequest"@)->0;
        let execution = part(quote, "executionPlan"@)->0;
        if !is_quote_header(stalls, wallets, caller, quote, hold, execution) {
            Some("invalid immutable finance quote"@)
        } else if execution_refusal(stalls, quote, execution) is Some {
            execution_refusal(stalls, quote, execution)
        } else {
            beneficiaries_refusal(wallets, quote, hold)
        }
    }
}

/// What publishing a quote answers: the quote as it is stored, and whether it was
/// published before.
pub struct QuoteReply {
    pub already_published: bool,
    pub quote: Json,
}

/// The quote as it is stored: with who issued it and when.
pub open spec fn signed_quote(quote: Tree, caller: Seq<char>, now: i64) -> Tree {
    quote.with("quoteIssuerNodeOwnerId"@, Tree::Text(caller)).with("publishedAt"@, Tree::Whole(now))
}

/// The published quote as it was submitted.
pub open spec fn submitted_quote(published: Tree) -> Tree {
    published.without("quoteIssuerNodeOwnerId"@).without("publishedAt"@)
}

/// What publishing a quote does: a quote is stored once, where holds and runs read it, and
/// publishing it again changes nothing.
pub open spec fn quote_published(
    stalls: Stalls,
    books: Books,
    caller: Seq<char>,
    quote: Tree,
    encoded_size: int,
    now: i64,
) -> Result<(Books, bool, Tree), Seq<char>> {
    let id = quote.text_or_empty("quoteId"@);
    match quote_refusal(stalls, books.wallets, caller, quote, encoded_size) {
        Some(e) => Err(e),
        None => match lookup(books.quotes, id) {
            Some(existing) if existing.fields().len() > 0 => if !submitted_quote(existing).equals(
                quote,
            ) {
                Err("quote id is immutable"@)
            } else {
                Ok((books, true, existing))
            },
            _ => {
                let signed = signed_quote(quote, caller, now);
                Ok((Books { quotes: stored(books.quotes, id, signed), ..books }, false, signed))
            },
        },
    }
}

/// Check that a quote of the given encoded size can be published.
pub fn refuse_quote(
    market: &Market,
    wallets: &Table<Wallet>,
    caller: &str,
    quote: &Json,
    encoded_size: usize,
) -> (r: Option<String>)
    ensures
        match r {
            Some(e) => quote_refusal(market@, wallets@, caller@, quote@, encoded_size as int)
                == Some(e@),
            None => quote_refusal(market@, wallets@, caller@, quote@, encoded_size as int) is None,
        },
{
    match check_record(quote, encoded_size, "finance quote") {
        Some(e) => {
            return Some(e);
        },
        None => {},
    }
    let hold = match read_part(quote, "holdRequest") {
        Some(hold) => hold,
        None => {
            return Some("quote holdRequest missing".to_owned());
        },
    };
    let execution = match read_part(quote, "executionPlan") {
        Some(execution) => execution,
        None => {
            return Some("quote executionPlan missing".to_owned());
        },
    };
    if !check_quote_header(market, wallets, caller, quote, hold, execution) {
        return Some("invalid immutable finance quote".to_owned());
    }
    match refuse_execution(market, quote, execution) {
        Some(e) => {
            return Some(e);
        },
        None => {},
    }
    refuse_beneficiaries(wallets, quote, hold)
}

/// Publish an immutable quote.
pub fn publish_finance_quote(
    market: &Market,
    ledger: &mut Ledger,
    caller: &str,
    quote: &Json,
    now: i64,
) -> (r: Result<QuoteReply, String>)
    ensures
        ({
            let outcome = quote_published(
                market@,
                old(ledger)@,
                caller@,
                quote@,
                json_bytes(quote@).len() as int,
                now,
            );
            match r {
                Ok(reply) => outcome == Ok::<(Books, bool, Tree), Seq<char>>(
                    (final(ledger)@, reply.already_published, reply.quote@),
                ),
                Err(e) => final(ledger)@ == old(ledger)@ && outcome == Err::<
                    (Books, bool, Tree),
                    Seq<char>,
                >(e@),
            }
        }),
{
    let encoded = json_encode(quote);
    match refuse_quote(market, &ledger.wallets, caller, quote, encoded.len()) {
        Some(e) => {
            return Err(e);
        },
        None => {},
    }
    let id = quote.text_or_empty("quoteId");
    match ledger.quotes.get(id) {
        Some(existing) => {
            if has_fields(existing) {
                let comparable = existing.without("quoteIssuerNodeOwnerId").without("publishedAt");
                if !comparable.equals(quote) {
                    return Err("quote id is immutable".to_owned());
                }
                return Ok(QuoteReply { already_published: true, quote: existing.copy() });
            }
        },
        None => {},
    }
    let signed = quote.copy().with("quoteIssuerNodeOwnerId", Json::Text(caller.to_owned())).with(
        "publishedAt",
        Json::Whole(now),
    );
    let reply = QuoteReply { already_published: false, quote: signed.copy() };
    ledger.quotes.put(id, signed);
    Ok(reply)
}

/// Publishing never changes a quote that was published: every quote is there afterwards, as
/// it was, and no money moves.
pub proof fn law_published_quotes_are_immutable(
    stalls: Stalls,
    books: Books,
    caller: Seq<char>,
    quote: Tree,
    encoded_size: int,
    now: i64,
    other: Seq<char>,
    published: Tree,
)
    requires
        lookup(books.quotes, other) == Some(published),
        published.fields().len() > 0,
    ensures
        quote_published(stalls, books, caller, quote, encoded_size, now) matches Ok((after, _, _))
            ==> lookup(after.quotes, other) == Some(published) && after == (Books {
            quotes: after.quotes,
            ..books
        }),
{
}

} // verus!
