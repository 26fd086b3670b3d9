//! Which catalogs, nodes and resources the market takes, and what project budgets do.
use vstd::prelude::*;

use crate::finance::budget::{finalized_budget, reserved_budget};
use crate::finance::ids::{is_finance_hash, is_finance_id, is_finance_origin, request_hash};
use crate::finance::ledger::{wallet_of, Wallet};
use crate::finance::market::{
    catalog_published, catalog_refusal, filed, has_safe_numbers, node_registered, node_retired,
    resource_filed, resource_registered, resource_reviewed, retire_refusal, retirement,
    ReviewFinanceResourceInput, Stalls,
};
use crate::json::{merged, Tree};
use crate::outside::json_bytes;
use crate::table::{law_lookup_after_store, lookup, Rows};

verus! {

broadcast use law_lookup_after_store;

// ---------------------------------------------------------------- safe numbers

/// The numbers of a document are safe exactly where none is negative, too large for every reader,
/// or no integer, in any of its parts.
pub proof fn law_safe_numbers_are_safe_in_every_part(n: i64, items: Seq<Tree>, fields: Rows<Tree>)
    ensures
        has_safe_numbers(Tree::Whole(n)) == (0 <= n <= 9_007_199_254_740_991),
        forall|i: int|
            0 <= i < items.len() && has_safe_numbers(Tree::Array(items)) ==> has_safe_numbers(
                #[trigger] items[i],
            ),
        (forall|i: int| 0 <= i < items.len() ==> has_safe_numbers(#[trigger] items[i]))
            ==> has_safe_numbers(Tree::Array(items)),
        forall|i: int|
            0 <= i < fields.len() && has_safe_numbers(Tree::Object(fields)) ==> has_safe_numbers(
                (#[trigger] fields[i]).1,
            ),
        (forall|i: int| 0 <= i < fields.len() ==> has_safe_numbers((#[trigger] fields[i]).1))
            ==> has_safe_numbers(Tree::Object(fields)),
{
    reveal_with_fuel(has_safe_numbers, 2);
    if has_safe_numbers(Tree::Array(items)) {
        assert forall|i: int| 0 <= i < items.len() implies has_safe_numbers(#[trigger] items[i]) by {}
    }
    if has_safe_numbers(Tree::Object(fields)) {
        assert forall|i: int| 0 <= i < fields.len() implies has_safe_numbers(
            (#[trigger] fields[i]).1,
        ) by {
            let whole = Tree::Object(fields);
            assert(has_safe_numbers(whole->Object_0[i].1));
        }
    }
}

// ---------------------------------------------------------------- catalogs

/// Whether a document names an account under a key.
pub open spec fn names_an_account(document: Tree, wallets: Rows<Wallet>, key: Seq<char>) -> bool {
    document.text(key) matches Some(user) && is_finance_id(user) && wallet_of(
        wallets,
        user,
    ).balance is Some
}

/// Whether a document is a price list: it fits, its numbers are safe and within policy, and the
/// accounts that it names exist.
pub open spec fn is_catalog(wallets: Rows<Wallet>, catalog: Tree, encoded_size: int) -> bool {
    &&& catalog is Object
    &&& encoded_size <= 262_144
    &&& is_finance_id(catalog.text_or_empty("version"@))
    &&& has_safe_numbers(catalog)
    &&& catalog.whole("tokenScale"@) matches Some(scale) && scale > 0
    &&& catalog.whole("defaultInputPerMillionMinor"@) is Some
    &&& catalog.whole("defaultOutputPerMillionMinor"@) is Some
    &&& catalog.whole("sandboxPerMinuteMinor"@) matches Some(rate) && rate > 0
    &&& catalog.whole("minChargeMinor"@) is Some
    &&& catalog.whole("platformCommissionBps"@) matches Some(commission) && commission <= 10_000
    &&& catalog.whole("authorizationSafetyBps"@) matches Some(safety) && 10_000 <= safety <= 100_000
    &&& catalog.whole("quoteTtlMs"@) matches Some(quote_ttl) && (catalog.whole(
        "holdTtlMs"@,
    ) matches Some(hold_ttl) && quote_ttl <= hold_ttl <= 86_400_000)
    &&& names_an_account(catalog, wallets, "settlementAuthority"@)
    &&& names_an_account(catalog, wallets, "platformAccountId"@)
    &&& names_an_account(catalog, wallets, "providerClearingAccountId"@)
    &&& names_an_account(catalog, wallets, "nodeOwnerAccountId"@)
}

/// A catalog is published exactly by the platform's owner, where it is a price list and no other
/// was published under its version.
pub proof fn law_the_platform_publishes_catalogs(
    stalls: Stalls,
    wallets: Rows<Wallet>,
    caller: Seq<char>,
    catalog: Tree,
    encoded_size: int,
)
    ensures
        (catalog_refusal(stalls, wallets, caller, catalog, encoded_size) is None) == {
            &&& caller == "1@global"@
            &&& is_catalog(wallets, catalog, encoded_size)
            &&& lookup(stalls.catalogs, catalog.text_or_empty("version"@)) matches Some(earlier)
                ==> earlier.fields().len() == 0 || earlier.equals(catalog)
        },
{
}

/// A published catalog is in force under its version and hash, and no other version changes.
pub proof fn law_a_published_catalog_is_in_force(
    stalls: Stalls,
    catalog: Tree,
    hash: Seq<char>,
    other: Seq<char>,
)
    ensures
        ({
            let after = catalog_published(stalls, catalog, hash);
            let version = catalog.text_or_empty("version"@);
            &&& lookup(after.catalogs, version) == Some(catalog)
            &&& after.current.text("version"@) == Some(version)
            &&& after.current.text("catalogHash"@) == Some(hash)
            &&& other != version ==> lookup(after.catalogs, other) == lookup(stalls.catalogs, other)
            &&& after.nodes == stalls.nodes
            &&& after.resources == stalls.resources
        }),
{
    reveal_strlit("version");
    reveal_strlit("catalogHash");
    assert("version"@.len() == 7 && "catalogHash"@.len() == 11);
}

// ---------------------------------------------------------------- nodes

proof fn lemma_node_words()
    ensures
        "status"@.len() == 6,
        "updatedAt"@.len() == 9,
        "revision"@.len() == 8,
        "federated"@.len() == 9,
        "federated"@ != "updatedAt"@,
        "registeredAt"@.len() == 12,
        "reviewedBy"@.len() == 10,
        "reviewedAt"@.len() == 10,
        "reviewedBy"@ != "reviewedAt"@,
        "reason"@.len() == 6,
        "reason"@ != "status"@,
        "prior"@.len() == 5,
{
    reveal_strlit("status");
    reveal_strlit("updatedAt");
    reveal_strlit("revision");
    reveal_strlit("federated");
    reveal_strlit("registeredAt");
    reveal_strlit("reviewedBy");
    reveal_strlit("reviewedAt");
    reveal_strlit("reason");
    reveal_strlit("prior");
    assert("federated"@[0] == 'f' && "updatedAt"@[0] == 'u');
    assert("reviewedBy"@[8] == 'B' && "reviewedAt"@[8] == 'A');
    assert("reason"@[0] == 'r' && "status"@[0] == 's');
}

/// A node is registered exactly by its owner, with its meters, origin, revision and rate; it is
/// then active, and everything that it registered stays as it is.
pub proof fn law_owners_register_their_nodes(
    node: Tree,
    encoded_size: int,
    wallets: Rows<Wallet>,
    caller: Seq<char>,
    now: i64,
    key: Seq<char>,
)
    ensures
        (node_registered(node, encoded_size, wallets, caller, now) is Ok) == {
            &&& node is Object
            &&& encoded_size <= 262_144
            &&& is_finance_id(caller)
            &&& node.text("nodeOwnerAccountId"@) == Some(caller)
            &&& node.text("settlementAuthority"@) == Some(caller)
            &&& is_finance_origin(node.text_or_empty("originId"@))
            &&& is_finance_id(node.text_or_empty("meterProgramId"@))
            &&& is_finance_id(node.text_or_empty("talentMeterProgramId"@))
            &&& is_finance_id(node.text_or_empty("meterCreatureId"@))
            &&& is_finance_id(node.text_or_empty("meterEntityId"@))
            &&& is_finance_id(node.text_or_empty("talentMeterCreatureId"@))
            &&& is_finance_id(node.text_or_empty("talentMeterEntityId"@))
            &&& is_finance_hash(node.text_or_empty("revision"@))
            &&& node.whole("sandboxPerMinuteMinor"@) matches Some(rate) && 0 < rate
                <= 9_007_199_254_740_991
            &&& wallet_of(wallets, caller).balance is Some
        },
        node_registered(node, encoded_size, wallets, caller, now) matches Ok(record) ==> {
            &&& record.text("status"@) == Some("active"@)
            &&& record.whole("updatedAt"@) == Some(now)
            &&& key != "status"@ && key != "updatedAt"@ ==> record.field(key) == node.field(key)
        },
{
    lemma_node_words();
}

/// A node is retired exactly by its owner, and only where it is registered; it keeps everything
/// but its status, its time and its revision, which is the hash of what it was retired from.
pub proof fn law_owners_retire_their_nodes(
    nodes: Rows<Tree>,
    caller: Seq<char>,
    owner: Seq<char>,
    now: i64,
    key: Seq<char>,
)
    ensures
        (node_retired(nodes, caller, owner, now) is Ok) == (owner == caller && is_finance_id(caller)
            && (lookup(nodes, caller) matches Some(node) && node is Object)),
        node_retired(nodes, caller, owner, now) matches Ok(record) ==> (lookup(
            nodes,
            caller,
        ) matches Some(node) && {
            &&& record.text("status"@) == Some("retired"@)
            &&& record.whole("updatedAt"@) == Some(now)
            &&& record.text("revision"@) == Some(request_hash(json_bytes(retirement(node, now))))
            &&& retirement(node, now).text("status"@) == Some("retired"@)
            &&& retirement(node, now).whole("updatedAt"@) == Some(now)
            &&& node.field("revision"@) is Some ==> retirement(node, now).field("prior"@)
                == node.field("revision"@)
            &&& key != "status"@ && key != "updatedAt"@ && key != "revision"@ ==> record.field(key)
                == node.field(key)
        }),
{
    lemma_node_words();
}

/// A record is filed over what was filed before, and every other key keeps its own.
pub proof fn law_records_are_filed_over_earlier_ones(
    rows: Rows<Tree>,
    key: Seq<char>,
    record: Tree,
    other: Seq<char>,
)
    ensures
        lookup(rows, key) is None ==> lookup(filed(rows, key, record), key) == Some(record),
        lookup(rows, key) matches Some(earlier) ==> lookup(filed(rows, key, record), key) == Some(
            merged(earlier, record),
        ),
        other != key ==> lookup(filed(rows, key, record), other) == lookup(rows, other),
{
}

// ---------------------------------------------------------------- resources

/// The name of the bucket of a kind of resource.
pub open spec fn bucket_name(kind: Seq<char>) -> Seq<char> {
    if kind == "agent"@ {
        "agents"@
    } else if kind == "tool"@ {
        "tools"@
    } else {
        "frontends"@
    }
}

/// Whether a kind is one of those that the market has.
pub open spec fn is_kind(kind: Seq<char>) -> bool {
    kind == "agent"@ || kind == "tool"@ || kind == "frontend"@
}

/// A resource is registered exactly by its host, under an owner with an account, bound as the host
/// is registered, and never away from the host that it has. What was decided on it before stays
/// decided; the platform's owner decides at once; everything else waits.
pub proof fn law_hosts_register_their_resources(
    stalls: Stalls,
    wallets: Rows<Wallet>,
    resource: Tree,
    encoded_size: int,
    caller: Seq<char>,
    now: i64,
    key: Seq<char>,
)
    ensures
        ({
            let kind = resource.text_or_empty("kind"@);
            let id = resource.text_or_empty("programId"@);
            let owner = resource.text_or_empty("owner"@);
            let host = resource.text_or_empty("hostNodeOwnerAccountId"@);
            let earlier = lookup(stalls.resources, bucket_name(kind) + "/"@ + id);
            let outcome = resource_registered(
                stalls,
                wallets,
                resource,
                encoded_size,
                caller,
                now,
            );
            &&& (outcome is Ok) == {
                &&& resource is Object
                &&& encoded_size <= 262_144
                &&& is_kind(kind)
                &&& caller == host
                &&& is_finance_id(id)
                &&& is_finance_id(owner)
                &&& wallet_of(wallets, owner).balance is Some
                &&& resource.field("pricing"@) matches Some(pricing) ==> has_safe_numbers(pricing)
                &&& lookup(stalls.nodes, host) matches Some(node) && {
                    &&& node is Object
                    &&& node.text("status"@) == Some("active"@)
                    &&& resource.text("hostOriginId"@) == node.text("originId"@)
                    &&& resource.text("billingMeterProgramId"@) == node.text("meterProgramId"@)
                    &&& resource.text("billingMeterCreatureId"@) == node.text("meterCreatureId"@)
                    &&& resource.text("billingMeterEntityId"@) == node.text("meterEntityId"@)
                    &&& resource.text("nodeRegistrationRevision"@) == node.text("revision"@)
                    &&& resource.whole("nodeSandboxPerMinuteMinor"@) == node.whole(
                        "sandboxPerMinuteMinor"@,
                    )
                }
                &&& earlier matches Some(row) ==> (row is Object ==> row.text(
                    "hostNodeOwnerAccountId"@,
                ) == Some(host))
            }
            &&& outcome matches Ok(record) ==> {
                let before = if earlier is Some && earlier->0 is Object {
                    earlier->0.text("status"@)
                } else {
                    None
                };
                let decided = before == Some("approved"@) || before == Some("denied"@);
                let asked = resource.text("status"@);
                &&& decided ==> record.text("status"@) == before
                &&& !decided && caller == "1@global"@ && (asked == Some("approved"@) || asked
                    == Some("denied"@)) ==> record.text("status"@) == asked
                &&& !decided && !(caller == "1@global"@ && (asked == Some("approved"@) || asked
                    == Some("denied"@))) ==> record.text("status"@) == Some("pending"@)
                &&& record.flag("federated"@)
                &&& record.whole("registeredAt"@) == Some(now)
                &&& key != "status"@ && key != "federated"@ && key != "registeredAt"@
                    ==> record.field(key) == resource.field(key)
            }
        }),
{
    lemma_node_words();
}

/// A resource is decided on exactly by the platform's owner, as approved or denied, where it is
/// registered; the record says who decided, when, and why.
pub proof fn law_the_platform_decides_on_resources(
    stalls: Stalls,
    caller: Seq<char>,
    input: ReviewFinanceResourceInput,
    now: i64,
    key: Seq<char>,
)
    ensures
        ({
            let row = lookup(
                stalls.resources,
                bucket_name(input.kind@) + "/"@ + input.resource_id@,
            );
            let outcome = resource_reviewed(stalls, caller, input, now);
            &&& (outcome is Ok) == {
                &&& caller == "1@global"@
                &&& input.status@ == "approved"@ || input.status@ == "denied"@
                &&& is_kind(input.kind@)
                &&& row matches Some(row) && row is Object
            }
            &&& outcome matches Ok(record) ==> {
                &&& record.text("status"@) == Some(input.status@)
                &&& record.text("reviewedBy"@) == Some(caller)
                &&& record.whole("reviewedAt"@) == Some(now)
                &&& input.reason@.len() > 0 ==> record.text("reason"@) == Some(input.reason@)
                &&& input.reason@.len() == 0 ==> record.field("reason"@) == row->0.field("reason"@)
                &&& key != "status"@ && key != "reviewedBy"@ && key != "reviewedAt"@ && key
                    != "reason"@ ==> record.field(key) == row->0.field(key)
            }
        }),
{
    lemma_node_words();
}

/// A resource is retired exactly by its host or the platform's owner, where it is registered.
pub proof fn law_hosts_and_the_platform_retire_resources(
    stalls: Stalls,
    caller: Seq<char>,
    kind: Seq<char>,
    id: Seq<char>,
)
    ensures
        (retire_refusal(stalls, caller, kind, id) is None) == (is_kind(kind) && (lookup(
            stalls.resources,
            bucket_name(kind) + "/"@ + id,
        ) matches Some(row) && row is Object && (caller == "1@global"@ || caller
            == row.text_or_empty("hostNodeOwnerAccountId"@)))),
{
}

/// A record of a resource is filed in the bucket of its kind, and nothing else of the market
/// changes.
pub proof fn law_resources_are_filed_in_their_bucket(
    stalls: Stalls,
    kind: Seq<char>,
    id: Seq<char>,
    record: Tree,
    other: Seq<char>,
)
    requires
        is_kind(kind),
    ensures
        ({
            let after = resource_filed(stalls, kind, id, record);
            let key = bucket_name(kind) + "/"@ + id;
            &&& lookup(stalls.resources, key) is None ==> lookup(after.resources, key) == Some(
                record,
            )
            &&& lookup(stalls.resources, key) matches Some(earlier) ==> lookup(
                after.resources,
                key,
            ) == Some(merged(earlier, record))
            &&& other != key ==> lookup(after.resources, other) == lookup(stalls.resources, other)
            &&& after == (Stalls { resources: after.resources, ..stalls })
        }),
{
}

// ---------------------------------------------------------------- budgets

/// Whether a field of a document is an amount, which it is also where it is missing.
pub open spec fn is_amount(document: Tree, key: Seq<char>) -> bool {
    match document.field(key) {
        None => true,
        Some(Tree::Whole(n)) => n >= 0,
        Some(_) => false,
    }
}

/// The amount in a field, nothing where it is missing.
pub open spec fn amount_of(document: Tree, key: Seq<char>) -> int {
    match document.whole(key) {
        Some(n) => n as int,
        None => 0,
    }
}

proof fn lemma_budget_words()
    ensures
        "spentMinor"@.len() == 10,
        "reservedMinor"@.len() == 13,
        "updatedAt"@.len() == 9,
        "budgetMinor"@.len() == 11,
        "projectId"@.len() == 9,
        "updatedAt"@ != "projectId"@,
{
    reveal_strlit("spentMinor");
    reveal_strlit("reservedMinor");
    reveal_strlit("updatedAt");
    reveal_strlit("budgetMinor");
    reveal_strlit("projectId");
    assert("updatedAt"@[0] == 'u' && "projectId"@[0] == 'p');
}

/// An amount is reserved of a project's budget exactly where the project exists, its amounts read
/// well, and the budget, where there is one, covers what is spent and reserved and the amount. As
/// much more is then reserved, and what is spent is what the project or its budget says, whichever
/// is more.
pub proof fn law_budgets_reserve_what_they_cover(
    budgets: Rows<Tree>,
    project: Seq<char>,
    metadata: Option<Tree>,
    amount: i64,
    now: i64,
    other: Seq<char>,
)
    requires
        project.len() > 0,
        amount >= 0,
    ensures
        ({
            let state = match lookup(budgets, project) {
                Some(state) => state,
                None => Tree::Object(Seq::empty()),
            };
            let meta = metadata->0;
            let a = amount_of(state, "spentMinor"@);
            let b = amount_of(meta, "spentMinor"@);
            let spent = if a >= b {
                a
            } else {
                b
            };
            let reserved = amount_of(state, "reservedMinor"@);
            let limit = amount_of(meta, "budgetMinor"@);
            let outcome = reserved_budget(budgets, project, metadata, amount, now);
            &&& (outcome is Ok) == {
                &&& metadata is Some
                &&& is_amount(meta, "budgetMinor"@) && is_amount(meta, "spentMinor"@)
                &&& is_amount(state, "spentMinor"@) && is_amount(state, "reservedMinor"@)
                &&& spent + reserved + amount <= i64::MAX
                &&& limit == 0 || spent + reserved + amount <= limit
            }
            &&& outcome matches Ok(after) ==> (lookup(after, project) matches Some(is) && {
                &&& is.whole("reservedMinor"@) == Some((reserved + amount) as i64)
                &&& is.whole("spentMinor"@) == Some(spent as i64)
                &&& is.whole("budgetMinor"@) == Some(limit as i64)
                &&& is.text("projectId"@) == Some(project)
                &&& is.whole("updatedAt"@) == Some(now)
                &&& other != project ==> lookup(after, other) == lookup(budgets, other)
            })
        }),
{
    lemma_budget_words();
}

/// A reservation of a budget ends exactly where the budget is there and reads well and what was
/// spent fits: as much less is then reserved and as much more spent.
pub proof fn law_budgets_count_what_was_spent(
    budgets: Rows<Tree>,
    project: Seq<char>,
    reserved_amount: i64,
    spent_amount: i64,
    now: i64,
    other: Seq<char>,
)
    requires
        project.len() > 0,
        reserved_amount >= 0,
        spent_amount >= 0,
    ensures
        ({
            let outcome = finalized_budget(budgets, project, reserved_amount, spent_amount, now);
            &&& (outcome is Ok) == (lookup(budgets, project) matches Some(was) && is_amount(
                was,
                "reservedMinor"@,
            ) && is_amount(was, "spentMinor"@) && amount_of(was, "spentMinor"@) + spent_amount
                <= i64::MAX)
            &&& outcome matches Ok(after) ==> (lookup(budgets, project) matches Some(was) && (
            lookup(after, project) matches Some(is) && {
                &&& is.whole("reservedMinor"@) == Some(
                    (amount_of(was, "reservedMinor"@) - reserved_amount) as i64,
                )
                &&& is.whole("spentMinor"@) == Some(
                    (amount_of(was, "spentMinor"@) + spent_amount) as i64,
                )
                &&& is.whole("updatedAt"@) == Some(now)
                &&& is.field("budgetMinor"@) == was.field("budgetMinor"@)
                &&& is.field("projectId"@) == was.field("projectId"@)
                &&& other != project ==> lookup(after, other) == lookup(budgets, other)
            }))
        }),
{
    lemma_budget_words();
}

/// A hold without a project touches no budget.
pub proof fn law_no_project_needs_no_budget(
    budgets: Rows<Tree>,
    metadata: Option<Tree>,
    amount: i64,
    spent: i64,
    now: i64,
)
    ensures
        reserved_budget(budgets, Seq::empty(), metadata, amount, now) == Ok::<
            Rows<Tree>,
            Seq<char>,
        >(budgets),
        finalized_budget(budgets, Seq::empty(), amount, spent, now) == Ok::<Rows<Tree>, Seq<char>>(
            budgets,
        ),
{
}

} // verus!
