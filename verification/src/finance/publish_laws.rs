//! Which quotes, catalogs, nodes and resources the market takes, and what it then holds.
use vstd::prelude::*;

use crate::finance::ids::is_finance_id;
use crate::finance::ledger::{wallet_of, Books, Wallet};
use crate::finance::market::{has_safe_numbers, quoted_resource_refusal, Stalls};
use crate::finance::quotes::{
    caps_total, execution_refusal, quote_published, resource_ids, row_refusal, rows_refusal,
};
use crate::json::{same_value, Tree};
use crate::table::{law_lookup_after_store, lookup, Rows};
use crate::text::listed;

verus! {

broadcast use law_lookup_after_store;

// ---------------------------------------------------------------- what a quote executes

/// Whether a row of an execution plan names a resource that the market approved, and binds it as
/// it and its active node are registered.
pub open spec fn is_bound(stalls: Stalls, row: Tree) -> bool {
    let kind = row.text_or_empty("kind"@);
    let id = row.text_or_empty("resourceId"@);
    let bucket = if kind == "agent"@ {
        "agents"@
    } else if kind == "tool"@ {
        "tools"@
    } else {
        "frontends"@
    };
    &&& row is Object
    &&& kind == "agent"@ || kind == "tool"@ || kind == "frontend"@
    &&& is_finance_id(id)
    &&& lookup(stalls.resources, bucket + "/"@ + id) matches Some(resource) && {
        &&& resource is Object
        &&& resource.text("status"@) == Some("approved"@)
        &&& lookup(stalls.nodes, resource.text_or_empty("hostNodeOwnerAccountId"@)) matches Some(
            node,
        ) && {
            &&& node is Object
            &&& node.text("status"@) == Some("active"@)
            &&& same_value(
                row.field("nodeOwnerAccountId"@),
                resource.field("hostNodeOwnerAccountId"@),
            )
            &&& same_value(row.field("hostOriginId"@), resource.field("hostOriginId"@))
            &&& same_value(resource.field("hostOriginId"@), node.field("originId"@))
            &&& same_value(row.field("meterProgramId"@), resource.field("billingMeterProgramId"@))
            &&& same_value(resource.field("billingMeterProgramId"@), node.field("meterProgramId"@))
            &&& same_value(row.field("meterCreatureId"@), resource.field("billingMeterCreatureId"@))
            &&& same_value(
                resource.field("billingMeterCreatureId"@),
                node.field("meterCreatureId"@),
            )
            &&& same_value(row.field("meterEntityId"@), resource.field("billingMeterEntityId"@))
            &&& same_value(resource.field("billingMeterEntityId"@), node.field("meterEntityId"@))
            &&& same_value(
                row.field("nodeRegistrationRevision"@),
                resource.field("nodeRegistrationRevision"@),
            )
            &&& same_value(resource.field("nodeRegistrationRevision"@), node.field("revision"@))
            &&& same_value(
                row.field("sandboxPerMinuteMinor"@),
                resource.field("nodeSandboxPerMinuteMinor"@),
            )
            &&& same_value(
                resource.field("nodeSandboxPerMinuteMinor"@),
                node.field("sandboxPerMinuteMinor"@),
            )
            &&& same_value(row.field("settlementAuthority"@), node.field("settlementAuthority"@))
        }
    }
}

/// Whether rows name each resource once.
pub open spec fn each_once(rows: Seq<Tree>) -> bool {
    forall|i: int, j: int|
        0 <= i < j < rows.len() ==> (#[trigger] rows[i]).text_or_empty("resourceId"@) != (
        #[trigger] rows[j]).text_or_empty("resourceId"@)
}

/// Whether rows can be executed for a quote: there are one to nine, each bound as it is
/// registered and listed once, and the first is the quoted resource, on the coordinating node.
pub open spec fn is_execution_plan(
    stalls: Stalls,
    quote: Tree,
    execution: Tree,
    rows: Seq<Tree>,
) -> bool {
    &&& 1 <= rows.len() <= 9
    &&& forall|i: int| 0 <= i < rows.len() ==> is_bound(stalls, #[trigger] rows[i])
    &&& each_once(rows)
    &&& rows[0].text("kind"@) == Some(quote.text_or_empty("kind"@))
    &&& rows[0].text_or_empty("resourceId"@) == quote.text_or_empty("resourceId"@)
    &&& rows[0].text("settlementAuthority"@) == Some(
        execution.text_or_empty("settlementAuthority"@),
    )
    &&& rows[0].text("meterProgramId"@) == Some(execution.text_or_empty("meterProgramId"@))
    &&& rows[0].text("meterCreatureId"@) == Some(execution.text_or_empty("meterCreatureId"@))
    &&& rows[0].text("meterEntityId"@) == Some(execution.text_or_empty("meterEntityId"@))
}

/// A resource may be quoted exactly where it is approved and bound as registered.
pub proof fn law_approved_and_bound_resources_are_quoted(stalls: Stalls, row: Tree)
    requires
        row is Object,
    ensures
        (quoted_resource_refusal(stalls, row) is None) == is_bound(stalls, row),
{
}

proof fn lemma_ids_listed(rows: Seq<Tree>, index: int)
    requires
        0 <= index < rows.len(),
    ensures
        listed(
            resource_ids(rows.subrange(0, index)),
            rows[index].text_or_empty("resourceId"@),
        ) == exists|j: int|
            0 <= j < index && (#[trigger] rows[j]).text_or_empty("resourceId"@)
                == rows[index].text_or_empty("resourceId"@),
{
    let ids = resource_ids(rows.subrange(0, index));
    let id = rows[index].text_or_empty("resourceId"@);
    assert(ids.len() == index);
    assert forall|j: int| 0 <= j < index implies ids[j] == (#[trigger] rows[j]).text_or_empty(
        "resourceId"@,
    ) by {
        assert(rows.subrange(0, index)[j] == rows[j]);
    }
    if listed(ids, id) {
        let j = choose|j: int| 0 <= j < ids.len() && ids[j] == id;
        assert(rows[j].text_or_empty("resourceId"@) == id);
    }
    if exists|j: int| 0 <= j < index && (#[trigger] rows[j]).text_or_empty("resourceId"@) == id {
        let j = choose|j: int|
            0 <= j < index && (#[trigger] rows[j]).text_or_empty("resourceId"@) == id;
        assert(ids[j] == id);
    }
}

proof fn lemma_rows_pass(stalls: Stalls, quote: Tree, rows: Seq<Tree>, from: int)
    requires
        0 <= from <= rows.len(),
    ensures
        (rows_refusal(stalls, quote, rows, from) is None) == forall|i: int|
            from <= i < rows.len() ==> (#[trigger] row_refusal(stalls, quote, rows, i)) is None,
    decreases rows.len() - from,
{
    if from < rows.len() {
        lemma_rows_pass(stalls, quote, rows, from + 1);
        if rows_refusal(stalls, quote, rows, from) is None {
            assert forall|i: int| from <= i < rows.len() implies (
            #[trigger] row_refusal(stalls, quote, rows, i)) is None by {}
        } else if row_refusal(stalls, quote, rows, from) is None {
            let i = choose|i: int|
                from + 1 <= i < rows.len() && (#[trigger] row_refusal(stalls, quote, rows, i)) is Some;
            assert(row_refusal(stalls, quote, rows, i) is Some);
        }
    }
}

proof fn lemma_rows_are_a_plan(stalls: Stalls, quote: Tree, rows: Seq<Tree>)
    requires
        rows.len() > 0,
    ensures
        (rows_refusal(stalls, quote, rows, 0) is None) == {
            &&& forall|i: int| 0 <= i < rows.len() ==> is_bound(stalls, #[trigger] rows[i])
            &&& each_once(rows)
            &&& rows[0].text("kind"@) == Some(quote.text_or_empty("kind"@))
            &&& rows[0].text_or_empty("resourceId"@) == quote.text_or_empty("resourceId"@)
        },
{
    lemma_rows_pass(stalls, quote, rows, 0);
    if rows_refusal(stalls, quote, rows, 0) is None {
        assert forall|i: int| 0 <= i < rows.len() implies is_bound(stalls, #[trigger] rows[i]) by {
            assert(row_refusal(stalls, quote, rows, i) is None);
            law_approved_and_bound_resources_are_quoted(stalls, rows[i]);
        }
        assert forall|i: int, j: int| 0 <= i < j < rows.len() implies (
        #[trigger] rows[i]).text_or_empty("resourceId"@) != (#[trigger] rows[j]).text_or_empty(
            "resourceId"@,
        ) by {
            assert(row_refusal(stalls, quote, rows, j) is None);
            lemma_ids_listed(rows, j);
        }
        assert(row_refusal(stalls, quote, rows, 0) is None);
    }
    if (forall|i: int| 0 <= i < rows.len() ==> is_bound(stalls, #[trigger] rows[i])) && each_once(
        rows,
    ) && rows[0].text("kind"@) == Some(quote.text_or_empty("kind"@)) && rows[0].text_or_empty(
        "resourceId"@,
    ) == quote.text_or_empty("resourceId"@) {
        assert forall|i: int| 0 <= i < rows.len() implies (
        #[trigger] row_refusal(stalls, quote, rows, i)) is None by {
            assert(is_bound(stalls, rows[i]));
            law_approved_and_bound_resources_are_quoted(stalls, rows[i]);
            lemma_ids_listed(rows, i);
        }
    }
}

/// A plan that a quote executes is taken exactly where it lists one to nine resources, each once,
/// approved and bound as registered, of which the first is the quoted one on the coordinating
/// node; a talent quote executes nothing.
pub proof fn law_plans_of_one_to_nine_bound_resources_are_taken(
    stalls: Stalls,
    quote: Tree,
    execution: Tree,
)
    ensures
        (execution_refusal(stalls, quote, execution) is None) == (execution.items(
            "resources"@,
        ) matches Some(rows) && if quote.text("kind"@) == Some("talent"@) {
            rows.len() == 0
        } else {
            is_execution_plan(stalls, quote, execution, rows)
        }),
{
    reveal_strlit("talent");
    assert("talent"@.len() == 6);
    if let Some(rows) = execution.items("resources"@) {
        if rows.len() > 0 {
            lemma_rows_are_a_plan(stalls, quote, rows);
        }
    }
}

// ---------------------------------------------------------------- whom a quote pays

/// What the caps of rows add up to.
pub open spec fn cap_sum(rows: Seq<Tree>) -> int
    decreases rows.len(),
{
    if rows.len() == 0 {
        0
    } else {
        cap_sum(rows.drop_last()) + match rows.last().whole("maxAmount"@) {
            Some(n) => n as int,
            None => 0,
        }
    }
}

/// Whether a row names a beneficiary with an account and caps what it pays.
pub open spec fn is_cap(wallets: Rows<Wallet>, row: Tree) -> bool {
    &&& row is Object
    &&& is_finance_id(row.text_or_empty("userId"@))
    &&& row.whole("maxAmount"@) matches Some(n) && n > 0
    &&& wallet_of(wallets, row.text_or_empty("userId"@)).balance is Some
}

proof fn lemma_caps(rows: Seq<Tree>, wallets: Rows<Wallet>)
    ensures
        caps_total(rows, wallets) matches Ok(sum) ==> sum == cap_sum(rows) && 0 <= sum <= i64::MAX
            && forall|i: int| 0 <= i < rows.len() ==> is_cap(wallets, #[trigger] rows[i]),
        (forall|i: int| 0 <= i < rows.len() ==> is_cap(wallets, #[trigger] rows[i])) ==> cap_sum(
            rows,
        ) >= 0,
        (forall|i: int| 0 <= i < rows.len() ==> is_cap(wallets, #[trigger] rows[i])) && cap_sum(
            rows,
        ) <= i64::MAX ==> caps_total(rows, wallets) is Ok,
    decreases rows.len(),
{
    if rows.len() > 0 {
        let front = rows.drop_last();
        lemma_caps(front, wallets);
        if caps_total(rows, wallets) is Ok {
            assert forall|i: int| 0 <= i < rows.len() implies is_cap(wallets, #[trigger] rows[i]) by {
                if i < front.len() {
                    assert(front[i] == rows[i]);
                } else {
                    assert(rows[i] == rows.last());
                }
            }
        }
        if forall|i: int| 0 <= i < rows.len() ==> is_cap(wallets, #[trigger] rows[i]) {
            assert forall|i: int| 0 <= i < front.len() implies is_cap(
                wallets,
                #[trigger] front[i],
            ) by {
                assert(front[i] == rows[i]);
            }
            assert(is_cap(wallets, rows[rows.len() - 1]));
        }
    }
}

/// Whether a quote says who issues, coordinates, pays and is paid, as the market has them.
pub open spec fn is_quote(
    stalls: Stalls,
    wallets: Rows<Wallet>,
    caller: Seq<char>,
    quote: Tree,
    hold: Tree,
    execution: Tree,
) -> bool {
    let talent = quote.text("kind"@) == Some("talent"@);
    let authority = execution.text_or_empty("settlementAuthority"@);
    &&& quote is Object
    &&& hold is Object
    &&& execution is Object
    &&& is_finance_id(quote.text_or_empty("quoteId"@))
    &&& is_finance_id(quote.text_or_empty("payerUserId"@))
    &&& talent || quote.text("kind"@) == Some("agent"@) || quote.text("kind"@) == Some("tool"@)
    &&& quote.text("pricingVersion"@) matches Some(version) && version.len() > 0
        && stalls.current.text("version"@) == Some(version) && (lookup(
        stalls.catalogs,
        version,
    ) matches Some(catalog) && catalog.fields().len() > 0)
    &&& quote.whole("maxAmount"@) matches Some(amount) && amount > 0 && hold.whole("maxAmount"@)
        == Some(amount)
    &&& lookup(stalls.nodes, caller) matches Some(node) && node.text("status"@) == Some("active"@)
    &&& lookup(stalls.nodes, authority) matches Some(node) && node.text("status"@) == Some(
        "active"@,
    ) && if talent {
        authority == caller && node.text("talentMeterProgramId"@) == Some(
            execution.text_or_empty("meterProgramId"@),
        )
    } else {
        node.text("meterProgramId"@) == Some(execution.text_or_empty("meterProgramId"@))
            && node.text("meterCreatureId"@) == Some(execution.text_or_empty("meterCreatureId"@))
            && node.text("meterEntityId"@) == Some(execution.text_or_empty("meterEntityId"@))
    }
    &&& hold.text("quoteId"@) == Some(quote.text_or_empty("quoteId"@))
    &&& hold.text("settlementAuthority"@) == Some(authority)
    &&& hold.text("meterProgramId"@) == Some(execution.text_or_empty("meterProgramId"@))
    &&& wallet_of(wallets, quote.text_or_empty("payerUserId"@)).balance is Some
    &&& wallet_of(wallets, caller).balance is Some
    &&& has_safe_numbers(quote)
}

/// Whether a document can be published as a quote: it fits, its parts name those whom the market
/// knows, its execution plan can be carried out, and its one to sixty-four beneficiaries have caps
/// that add up to its amount.
pub open spec fn is_publishable(
    stalls: Stalls,
    wallets: Rows<Wallet>,
    caller: Seq<char>,
    quote: Tree,
    encoded_size: int,
) -> bool {
    &&& encoded_size <= 262_144
    &&& quote.field("holdRequest"@) matches Some(hold) && (quote.field(
        "executionPlan"@,
    ) matches Some(execution) && {
        &&& is_quote(stalls, wallets, caller, quote, hold, execution)
        &&& execution.items("resources"@) matches Some(rows) && if quote.text("kind"@) == Some(
            "talent"@,
        ) {
            rows.len() == 0
        } else {
            is_execution_plan(stalls, quote, execution, rows)
        }
        &&& hold.items("beneficiaries"@) matches Some(caps) && {
            &&& 1 <= caps.len() <= 64
            &&& forall|i: int| 0 <= i < caps.len() ==> is_cap(wallets, #[trigger] caps[i])
            &&& quote.whole("maxAmount"@) == Some(cap_sum(caps) as i64)
            &&& cap_sum(caps) <= i64::MAX
        }
    })
}

/// A document is published as a quote exactly where it can be and no other quote has its name. It
/// is then stored under its name as it was submitted, with its issuer and the time, and nothing
/// else changes.
#[verifier::rlimit(40)]
pub proof fn law_publishable_quotes_are_published(
    stalls: Stalls,
    books: Books,
    caller: Seq<char>,
    quote: Tree,
    encoded_size: int,
    now: i64,
    key: Seq<char>,
)
    ensures
        ({
            let id = quote.text_or_empty("quoteId"@);
            let earlier = lookup(books.quotes, id);
            let outcome = quote_published(stalls, books, caller, quote, encoded_size, now);
            let fresh = earlier is None || earlier->0.fields().len() == 0;
            &&& fresh ==> (outcome is Ok) == is_publishable(
                stalls,
                books.wallets,
                caller,
                quote,
                encoded_size,
            )
            &&& outcome is Ok ==> is_publishable(stalls, books.wallets, caller, quote, encoded_size)
            &&& outcome matches Ok((after, again, published)) ==> {
                &&& again == !fresh
                &&& lookup(after.quotes, id) == Some(published)
                &&& !fresh ==> after == books && published == earlier->0
                &&& fresh ==> {
                    &&& published.text("quoteIssuerNodeOwnerId"@) == Some(caller)
                    &&& published.whole("publishedAt"@) == Some(now)
                    &&& key != "quoteIssuerNodeOwnerId"@ && key != "publishedAt"@
                        ==> published.field(key) == quote.field(key)
                    &&& key != id ==> lookup(after.quotes, key) == lookup(books.quotes, key)
                    &&& after == (Books { quotes: after.quotes, ..books })
                }
            }
        }),
{
    reveal_strlit("talent");
    reveal_strlit("agent");
    reveal_strlit("tool");
    reveal_strlit("quoteIssuerNodeOwnerId");
    reveal_strlit("publishedAt");
    assert("talent"@.len() == 6);
    assert("agent"@.len() == 5);
    assert("tool"@.len() == 4);
    assert("quoteIssuerNodeOwnerId"@.len() == 22);
    assert("publishedAt"@.len() == 11);
    if let Some(execution) = quote.field("executionPlan"@) {
        law_plans_of_one_to_nine_bound_resources_are_taken(stalls, quote, execution);
    }
    if let Some(hold) = quote.field("holdRequest"@) {
        if let Some(caps) = hold.items("beneficiaries"@) {
            lemma_caps(caps, books.wallets);
        }
    }
}

} // verus!
