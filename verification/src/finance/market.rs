//! The market: pricing catalogs, execution nodes, and priced resources.
use vstd::prelude::*;

use crate::finance::holds::FINANCE_HOLD_MAX_TTL_MS;
use crate::finance::ids::{
    finance_hash, hash_encoded, is_finance_hash, is_finance_id, is_finance_origin, request_hash,
    valid_finance_hash, valid_finance_id, valid_finance_origin,
};
use crate::finance::ledger::{wallet_in, wallet_of, Wallet};
use crate::json::{
    law_merged_texts_are_the_upper_ones, merged, no_fields, object, same_value, same_values, Json,
    Tree,
};
use crate::outside::{json_bytes, json_encode};
use crate::table::{
    distinct, law_lookup_after_store, law_store_keeps_keys_distinct, lookup, stored, Rows, Table,
};
use crate::text::{join2, join3, same};

verus! {

broadcast use {vstd::string::group_string_axioms, law_lookup_after_store};

/// How large the encoding of a market record may be, in bytes.
pub const FEDERATED_FINANCE_MAX_RECORD_BYTES: usize = 262_144;

/// The greatest integer that every reader of JSON holds exactly.
pub const MAX_SAFE_INTEGER: i64 = 9_007_199_254_740_991;

// ---------------------------------------------------------------- records

/// Why a document is no market record; `label` says what it was meant to be, and
/// `encoded_size` is the size of its encoding.
pub open spec fn record_refusal(value: Tree, encoded_size: int, label: Seq<char>) -> Option<Seq<char>> {
    if !(value is Object) {
        Some(label + " must be an object"@)
    } else if encoded_size > FEDERATED_FINANCE_MAX_RECORD_BYTES {
        Some(label + " is too large"@)
    } else {
        None
    }
}

/// Check that a document is a market record. The refusal is `None` where it is one.
pub fn federated_finance_object(value: &Json, label: &str) -> (r: Option<String>)
    ensures
        match r {
            Some(e) => record_refusal(value@, json_bytes(value@).len() as int, label@) == Some(e@),
            None => record_refusal(value@, json_bytes(value@).len() as int, label@) is None,
        },
{
    let encoded = json_encode(value);
    check_record(value, encoded.len(), label)
}

/// Check that a document of the given encoded size is a market record.
pub fn check_record(value: &Json, encoded_size: usize, label: &str) -> (r: Option<String>)
    ensures
        match r {
            Some(e) => record_refusal(value@, encoded_size as int, label@) == Some(e@),
            None => record_refusal(value@, encoded_size as int, label@) is None,
        },
{
    if !value.is_object() {
        return Some(join2(label, " must be an object"));
    }
    if encoded_size > FEDERATED_FINANCE_MAX_RECORD_BYTES {
        return Some(join2(label, " is too large"));
    }
    None
}

/// Whether every number of a document is an integer from zero to the greatest safe one.
pub open spec fn has_safe_numbers(value: Tree) -> bool
    decreases value,
{
    match value {
        Tree::Null | Tree::Bool(_) | Tree::Text(_) => true,
        Tree::Whole(n) => 0 <= n <= MAX_SAFE_INTEGER,
        Tree::Real { .. } => false,
        Tree::Array(items) => forall|i: int| 0 <= i < items.len() ==> has_safe_numbers(#[trigger] items[i]),
        Tree::Object(fields) => forall|i: int|
            0 <= i < fields.len() ==> has_safe_numbers((#[trigger] fields[i]).1),
    }
}

/// Check the numbers of a document.
pub fn federated_finance_safe_numbers(value: &Json) -> (r: bool)
    ensures
        r == has_safe_numbers(value@),
    decreases value,
{
    match value {
        Json::Null => true,
        Json::Bool(_) => true,
        Json::Text(_) => true,
        Json::Whole(n) => 0 <= *n && *n <= MAX_SAFE_INTEGER,
        Json::Real { .. } => false,
        Json::Array(items) => {
            let ghost all = value@->Array_0;
            let mut i: usize = 0;
            while i < items.len()
                invariant
                    i <= items@.len(),
                    *value == Json::Array(*items),
                    value@ == Tree::Array(all),
                    all.len() == items@.len(),
                    forall|j: int| 0 <= j < all.len() ==> #[trigger] all[j] == items@[j]@,
                    forall|j: int| 0 <= j < i ==> has_safe_numbers(#[trigger] all[j]),
                decreases items@.len() - i,
            {
                assert(decreases_to!(*value => value->Array_0));
                assert(decreases_to!(items@ => items@[i as int]));
                assert(all[i as int] == items@[i as int]@);
                if !federated_finance_safe_numbers(&items[i]) {
                    assert(!has_safe_numbers(value@->Array_0[i as int]));
                    return false;
                }
                i = i + 1;
            }
            true
        },
        Json::Object(fields) => {
            let ghost all = value@->Object_0;
            let mut i: usize = 0;
            while i < fields.len()
                invariant
                    i <= fields@.len(),
                    *value == Json::Object(*fields),
                    value@ == Tree::Object(all),
                    all.len() == fields@.len(),
                    forall|j: int| 0 <= j < all.len() ==> (#[trigger] all[j]).1 == fields@[j].1@,
                    forall|j: int| 0 <= j < i ==> has_safe_numbers((#[trigger] all[j]).1),
                decreases fields@.len() - i,
            {
                assert(decreases_to!(*value => value->Object_0));
                assert(decreases_to!(fields@ => fields@[i as int]));
                assert(decreases_to!(fields@[i as int] => fields@[i as int].1));
                assert(all[i as int].1 == fields@[i as int].1@);
                if !federated_finance_safe_numbers(&fields[i].1) {
                    assert(!has_safe_numbers(value@->Object_0[i as int].1));
                    return false;
                }
                i = i + 1;
            }
            true
        },
    }
}

/// The bucket of the market that holds a kind of resource.
pub open spec fn bucket_of(kind: Seq<char>) -> Option<Seq<char>> {
    if kind == "agent"@ {
        Some("agents"@)
    } else if kind == "tool"@ {
        Some("tools"@)
    } else if kind == "frontend"@ {
        Some("frontends"@)
    } else {
        None
    }
}

/// The bucket of the market that holds a kind of resource.
pub fn federated_finance_market_bucket(kind: &str) -> (r: Option<&'static str>)
    ensures
        match r {
            Some(bucket) => bucket_of(kind@) == Some(bucket@),
            None => bucket_of(kind@) is None,
        },
{
    if same(kind, "agent") {
        Some("agents")
    } else if same(kind, "tool") {
        Some("tools")
    } else if same(kind, "frontend") {
        Some("frontends")
    } else {
        None
    }
}

/// What the market holds.
///
/// `current` names the pricing catalog in force. `nodes` are the execution nodes by their
/// owners, and `resources` the priced resources by bucket and identifier, written as
/// `bucket/identifier`.
pub struct Market {
    pub catalogs: Table<Json>,
    pub current: Json,
    pub nodes: Table<Json>,
    pub resources: Table<Json>,
}

/// What the market holds, as trees.
pub struct Stalls {
    pub catalogs: Rows<Tree>,
    pub current: Tree,
    pub nodes: Rows<Tree>,
    pub resources: Rows<Tree>,
}

impl View for Market {
    type V = Stalls;

    open spec fn view(&self) -> Stalls {
        Stalls {
            catalogs: self.catalogs@,
            current: self.current@,
            nodes: self.nodes@,
            resources: self.resources@,
        }
    }
}

/// The object under a key; nothing where the key holds anything else.
pub open spec fn object_under(rows: Rows<Tree>, key: Seq<char>) -> Option<Tree> {
    match lookup(rows, key) {
        Some(value) => if value is Object {
            Some(value)
        } else {
            None
        },
        None => None,
    }
}

pub(crate) fn find_object<'a>(rows: &'a Table<Json>, key: &str) -> (r: Option<&'a Json>)
    ensures
        match r {
            Some(value) => object_under(rows@, key@) == Some(value@),
            None => object_under(rows@, key@) is None,
        },
{
    match rows.get(key) {
        Some(value) => if value.is_object() {
            Some(value)
        } else {
            None
        },
        None => None,
    }
}

/// The text of a node's field.
pub open spec fn node_text(nodes: Rows<Tree>, node: Seq<char>, key: Seq<char>) -> Option<Seq<char>> {
    match object_under(nodes, node) {
        Some(value) => value.text(key),
        None => None,
    }
}

pub(crate) fn node_has(nodes: &Table<Json>, node: &str, key: &str, wanted: &str) -> (r: bool)
    ensures
        r == (node_text(nodes@, node@, key@) == Some(wanted@)),
{
    match find_object(nodes, node) {
        Some(value) => value.has_text(key, wanted),
        None => false,
    }
}

/// Whether a user has an account.
pub open spec fn has_account(wallets: Rows<Wallet>, user: Seq<char>) -> bool {
    wallet_of(wallets, user).balance is Some
}

pub(crate) fn account_exists(wallets: &Table<Wallet>, user: &str) -> (r: bool)
    ensures
        r == has_account(wallets@, user@),
{
    wallet_in(wallets, user).balance.is_some()
}

/// The integer of a field; zero where it holds none.
pub open spec fn whole_or_zero(value: Tree, key: Seq<char>) -> i64 {
    match value.whole(key) {
        Some(n) => n,
        None => 0,
    }
}

pub(crate) fn read_whole(value: &Json, key: &str) -> (r: i64)
    ensures
        r == whole_or_zero(value@, key@),
{
    match value.whole(key) {
        Some(n) => n,
        None => 0,
    }
}

// ---------------------------------------------------------------- catalogs

/// The first integer that a catalog lacks.
pub open spec fn missing_catalog_integer(catalog: Tree) -> Option<Seq<char>> {
    if catalog.whole("tokenScale"@) is None {
        Some("tokenScale"@)
    } else if catalog.whole("defaultInputPerMillionMinor"@) is None {
        Some("defaultInputPerMillionMinor"@)
    } else if catalog.whole("defaultOutputPerMillionMinor"@) is None {
        Some("defaultOutputPerMillionMinor"@)
    } else if catalog.whole("sandboxPerMinuteMinor"@) is None {
        Some("sandboxPerMinuteMinor"@)
    } else if catalog.whole("minChargeMinor"@) is None {
        Some("minChargeMinor"@)
    } else if catalog.whole("platformCommissionBps"@) is None {
        Some("platformCommissionBps"@)
    } else if catalog.whole("authorizationSafetyBps"@) is None {
        Some("authorizationSafetyBps"@)
    } else if catalog.whole("quoteTtlMs"@) is None {
        Some("quoteTtlMs"@)
    } else if catalog.whole("holdTtlMs"@) is None {
        Some("holdTtlMs"@)
    } else {
        None
    }
}

/// Whether a catalog field names a user that has an account.
pub open spec fn names_account(catalog: Tree, wallets: Rows<Wallet>, key: Seq<char>) -> bool {
    is_finance_id(catalog.text_or_empty(key)) && has_account(wallets, catalog.text_or_empty(key))
}

/// The first account of a catalog that does not exist.
pub open spec fn missing_catalog_account(catalog: Tree, wallets: Rows<Wallet>) -> Option<Seq<char>> {
    if !names_account(catalog, wallets, "settlementAuthority"@) {
        Some("settlementAuthority"@)
    } else if !names_account(catalog, wallets, "platformAccountId"@) {
        Some("platformAccountId"@)
    } else if !names_account(catalog, wallets, "providerClearingAccountId"@) {
        Some("providerClearingAccountId"@)
    } else if !names_account(catalog, wallets, "nodeOwnerAccountId"@) {
        Some("nodeOwnerAccountId"@)
    } else {
        None
    }
}

/// Why a catalog cannot be published.
pub open spec fn catalog_refusal(
    stalls: Stalls,
    wallets: Rows<Wallet>,
    caller: Seq<char>,
    catalog: Tree,
    encoded_size: int,
) -> Option<Seq<char>> {
    let safety = whole_or_zero(catalog, "authorizationSafetyBps"@);
    let quote_ttl = whole_or_zero(catalog, "quoteTtlMs"@);
    let hold_ttl = whole_or_zero(catalog, "holdTtlMs"@);
    let version = catalog.text_or_empty("version"@);
    if caller != "1@global"@ {
        Some("global platform owner required"@)
    } else if record_refusal(catalog, encoded_size, "finance catalog"@) is Some {
        record_refusal(catalog, encoded_size, "finance catalog"@)
    } else if !is_finance_id(version) || !has_safe_numbers(catalog) {
        Some("invalid finance catalog"@)
    } else if missing_catalog_integer(catalog) is Some {
        Some("invalid finance catalog integer: "@ + missing_catalog_integer(catalog)->0)
    } else if whole_or_zero(catalog, "tokenScale"@) <= 0 || whole_or_zero(
        catalog,
        "sandboxPerMinuteMinor"@,
    ) <= 0 {
        Some("tokenScale and sandbox rate must be positive"@)
    } else if whole_or_zero(catalog, "platformCommissionBps"@) > 10_000 || safety < 10_000 || safety
        > 100_000 || quote_ttl > hold_ttl || hold_ttl > FINANCE_HOLD_MAX_TTL_MS {
        Some("invalid finance catalog policy"@)
    } else if missing_catalog_account(catalog, wallets) is Some {
        Some("invalid finance catalog account: "@ + missing_catalog_account(catalog, wallets)->0)
    } else {
        match lookup(stalls.catalogs, version) {
            Some(existing) => if existing.fields().len() > 0 && !existing.equals(catalog) {
                Some("pricing version is immutable"@)
            } else {
                None
            },
            None => None,
        }
    }
}

/// What publishing a catalog answers: the hash of the catalog, and whether this version
/// was published before.
pub struct CatalogReply {
    pub catalog_hash: String,
    pub already_published: bool,
}

/// Whether a version of the catalog was published before.
pub open spec fn is_published(stalls: Stalls, version: Seq<char>) -> bool {
    match lookup(stalls.catalogs, version) {
        Some(existing) => existing.fields().len() > 0,
        None => false,
    }
}

/// The market after a catalog was published: the version is stored, and it is in force.
pub open spec fn catalog_published(stalls: Stalls, catalog: Tree, hash: Seq<char>) -> Stalls {
    let version = catalog.text_or_empty("version"@);
    Stalls {
        catalogs: stored(stalls.catalogs, version, catalog),
        current: Tree::Object(Seq::empty()).with("version"@, Tree::Text(version)).with(
            "catalogHash"@,
            Tree::Text(hash),
        ),
        ..stalls
    }
}

fn missing_integer(catalog: &Json) -> (r: Option<&'static str>)
    ensures
        match r {
            Some(key) => missing_catalog_integer(catalog@) == Some(key@),
            None => missing_catalog_integer(catalog@) is None,
        },
{
    if catalog.whole("tokenScale").is_none() {
        Some("tokenScale")
    } else if catalog.whole("defaultInputPerMillionMinor").is_none() {
        Some("defaultInputPerMillionMinor")
    } else if catalog.whole("defaultOutputPerMillionMinor").is_none() {
        Some("defaultOutputPerMillionMinor")
    } else if catalog.whole("sandboxPerMinuteMinor").is_none() {
        Some("sandboxPerMinuteMinor")
    } else if catalog.whole("minChargeMinor").is_none() {
        Some("minChargeMinor")
    } else if catalog.whole("platformCommissionBps").is_none() {
        Some("platformCommissionBps")
    } else if catalog.whole("authorizationSafetyBps").is_none() {
        Some("authorizationSafetyBps")
    } else if catalog.whole("quoteTtlMs").is_none() {
        Some("quoteTtlMs")
    } else if catalog.whole("holdTtlMs").is_none() {
        Some("holdTtlMs")
    } else {
        None
    }
}

fn names_an_account(catalog: &Json, wallets: &Table<Wallet>, key: &str) -> (r: bool)
    ensures
        r == names_account(catalog@, wallets@, key@),
{
    let account = catalog.text_or_empty(key);
    valid_finance_id(account) && account_exists(wallets, account)
}

fn missing_account(catalog: &Json, wallets: &Table<Wallet>) -> (r: Option<&'static str>)
    ensures
        match r {
            Some(key) => missing_catalog_account(catalog@, wallets@) == Some(key@),
            None => missing_catalog_account(catalog@, wallets@) is None,
        },
{
    if !names_an_account(catalog, wallets, "settlementAuthority") {
        Some("settlementAuthority")
    } else if !names_an_account(catalog, wallets, "platformAccountId") {
        Some("platformAccountId")
    } else if !names_an_account(catalog, wallets, "providerClearingAccountId") {
        Some("providerClearingAccountId")
    } else if !names_an_account(catalog, wallets, "nodeOwnerAccountId") {
        Some("nodeOwnerAccountId")
    } else {
        None
    }
}

/// Check that a catalog of the given encoded size can be published.
pub fn refuse_catalog(
    market: &Market,
    wallets: &Table<Wallet>,
    caller: &str,
    catalog: &Json,
    encoded_size: usize,
) -> (r: Option<String>)
    ensures
        match r {
            Some(e) => catalog_refusal(market@, wallets@, caller@, catalog@, encoded_size as int)
                == Some(e@),
            None => catalog_refusal(market@, wallets@, caller@, catalog@, encoded_size as int)
                is None,
        },
{
    if !same(caller, "1@global") {
        return Some("global platform owner required".to_owned());
    }
    match check_record(catalog, encoded_size, "finance catalog") {
        Some(e) => {
            return Some(e);
        },
        None => {},
    }
    let version = catalog.text_or_empty("version");
    if !valid_finance_id(version) || !federated_finance_safe_numbers(catalog) {
        return Some("invalid finance catalog".to_owned());
    }
    match missing_integer(catalog) {
        Some(key) => {
            return Some(join2("invalid finance catalog integer: ", key));
        },
        None => {},
    }
    if read_whole(catalog, "tokenScale") <= 0 || read_whole(catalog, "sandboxPerMinuteMinor") <= 0 {
        return Some("tokenScale and sandbox rate must be positive".to_owned());
    }
    let safety: i64 = read_whole(catalog, "authorizationSafetyBps");
    let quote_ttl: i64 = read_whole(catalog, "quoteTtlMs");
    let hold_ttl: i64 = read_whole(catalog, "holdTtlMs");
    if read_whole(catalog, "platformCommissionBps") > 10_000 || safety < 10_000 || safety > 100_000
        || quote_ttl > hold_ttl || hold_ttl > FINANCE_HOLD_MAX_TTL_MS {
        return Some("invalid finance catalog policy".to_owned());
    }
    match missing_account(catalog, wallets) {
        Some(key) => {
            return Some(join2("invalid finance catalog account: ", key));
        },
        None => {},
    }
    match market.catalogs.get(version) {
        Some(existing) => {
            if has_fields(existing) && !existing.equals(catalog) {
                return Some("pricing version is immutable".to_owned());
            }
        },
        None => {},
    }
    None
}

pub(crate) fn has_fields(value: &Json) -> (r: bool)
    ensures
        r == (value@.fields().len() > 0),
{
    match value.fields() {
        Some(fields) => fields.len() > 0,
        None => false,
    }
}

/// Publish a pricing catalog as the platform owner. It is hashed as it is encoded.
pub fn publish_finance_catalog(
    market: &mut Market,
    wallets: &Table<Wallet>,
    caller: &str,
    catalog: &Json,
) -> (r: Result<CatalogReply, String>)
    ensures
        ({
            let refusal = catalog_refusal(
                old(market)@,
                wallets@,
                caller@,
                catalog@,
                json_bytes(catalog@).len() as int,
            );
            match r {
                Ok(reply) => {
                    &&& refusal is None
                    &&& reply.catalog_hash@ == request_hash(json_bytes(catalog@))
                    &&& reply.already_published == is_published(
                        old(market)@,
                        catalog@.text_or_empty("version"@),
                    )
                    &&& final(market)@ == catalog_published(
                        old(market)@,
                        catalog@,
                        request_hash(json_bytes(catalog@)),
                    )
                },
                Err(e) => refusal == Some(e@) && final(market)@ == old(market)@,
            }
        }),
{
    let encoded = json_encode(catalog);
    match refuse_catalog(&*market, wallets, caller, catalog, encoded.len()) {
        Some(e) => {
            return Err(e);
        },
        None => {},
    }
    let version = catalog.text_or_empty("version");
    let already_published = match market.catalogs.get(version) {
        Some(existing) => has_fields(existing),
        None => false,
    };
    let catalog_hash = hash_encoded(encoded.as_slice());
    market.catalogs.put(version, catalog.copy());
    market.current = object().with("version", Json::Text(version.to_owned())).with(
        "catalogHash",
        Json::Text(catalog_hash.clone()),
    );
    Ok(CatalogReply { catalog_hash, already_published })
}

// ---------------------------------------------------------------- nodes

/// Whether a node registration is what its owner may attest.
pub open spec fn is_node_registration(node: Tree, wallets: Rows<Wallet>, caller: Seq<char>) -> bool {
    let rate = whole_or_zero(node, "sandboxPerMinuteMinor"@);
    &&& node.text_or_empty("nodeOwnerAccountId"@) == caller
    &&& node.text_or_empty("settlementAuthority"@) == caller
    &&& is_finance_id(caller)
    &&& is_finance_origin(node.text_or_empty("originId"@))
    &&& is_finance_id(node.text_or_empty("meterProgramId"@))
    &&& is_finance_id(node.text_or_empty("talentMeterProgramId"@))
    &&& is_finance_id(node.text_or_empty("meterCreatureId"@))
    &&& is_finance_id(node.text_or_empty("meterEntityId"@))
    &&& is_finance_id(node.text_or_empty("talentMeterCreatureId"@))
    &&& is_finance_id(node.text_or_empty("talentMeterEntityId"@))
    &&& is_finance_hash(node.text_or_empty("revision"@))
    &&& 0 < rate <= MAX_SAFE_INTEGER
    &&& has_account(wallets, caller)
}

/// The record of a node that registers, to be merged under its owner, or why it is refused.
pub open spec fn node_registered(
    node: Tree,
    encoded_size: int,
    wallets: Rows<Wallet>,
    caller: Seq<char>,
    now: i64,
) -> Result<Tree, Seq<char>> {
    if record_refusal(node, encoded_size, "finance node"@) is Some {
        Err(record_refusal(node, encoded_size, "finance node"@)->0)
    } else if !is_node_registration(node, wallets, caller) {
        Err("invalid host-attested finance node registration"@)
    } else {
        Ok(node.with("status"@, Tree::Text("active"@)).with("updatedAt"@, Tree::Whole(now)))
    }
}

fn check_node_registration(node: &Json, wallets: &Table<Wallet>, caller: &str) -> (r: bool)
    ensures
        r == is_node_registration(node@, wallets@, caller@),
{
    let rate: i64 = read_whole(node, "sandboxPerMinuteMinor");
    same(node.text_or_empty("nodeOwnerAccountId"), caller) && same(
        node.text_or_empty("settlementAuthority"),
        caller,
    ) && valid_finance_id(caller) && valid_finance_origin(node.text_or_empty("originId"))
        && valid_finance_id(node.text_or_empty("meterProgramId")) && valid_finance_id(
        node.text_or_empty("talentMeterProgramId"),
    ) && valid_finance_id(node.text_or_empty("meterCreatureId")) && valid_finance_id(
        node.text_or_empty("meterEntityId"),
    ) && valid_finance_id(node.text_or_empty("talentMeterCreatureId")) && valid_finance_id(
        node.text_or_empty("talentMeterEntityId"),
    ) && valid_finance_hash(node.text_or_empty("revision")) && 0 < rate && rate
        <= MAX_SAFE_INTEGER && account_exists(wallets, caller)
}

/// The record that a node of the given encoded size registers.
pub fn node_record(
    node: &Json,
    encoded_size: usize,
    wallets: &Table<Wallet>,
    caller: &str,
    now: i64,
) -> (r: Result<Json, String>)
    ensures
        match r {
            Ok(record) => node_registered(node@, encoded_size as int, wallets@, caller@, now)
                == Ok::<Tree, Seq<char>>(record@),
            Err(e) => node_registered(node@, encoded_size as int, wallets@, caller@, now) == Err::<
                Tree,
                Seq<char>,
            >(e@),
        },
{
    match check_record(node, encoded_size, "finance node") {
        Some(e) => {
            return Err(e);
        },
        None => {},
    }
    if !check_node_registration(node, wallets, caller) {
        return Err("invalid host-attested finance node registration".to_owned());
    }
    Ok(
        node.copy().with("status", Json::Text("active".to_owned())).with(
            "updatedAt",
            Json::Whole(now),
        ),
    )
}

/// The record of a node that retires, to be merged under its owner, or why it is refused.
/// Its revision is then the hash of its prior revision, the retired status, and the time.
pub open spec fn node_retired(
    nodes: Rows<Tree>,
    caller: Seq<char>,
    owner: Seq<char>,
    now: i64,
) -> Result<Tree, Seq<char>> {
    if owner != caller || !is_finance_id(caller) {
        Err("node owner mismatch"@)
    } else {
        match object_under(nodes, caller) {
            None => Err("finance node not found"@),
            Some(node) => Ok(
                node.with("status"@, Tree::Text("retired"@)).with(
                    "updatedAt"@,
                    Tree::Whole(now),
                ).with("revision"@, Tree::Text(request_hash(json_bytes(retirement(node, now))))),
            ),
        }
    }
}

/// The document that a retirement is hashed by.
pub open spec fn retirement(node: Tree, now: i64) -> Tree {
    let prior = match node.field("revision"@) {
        Some(revision) => revision,
        None => Tree::Null,
    };
    no_fields().with("prior"@, prior).with("status"@, Tree::Text("retired"@)).with(
        "updatedAt"@,
        Tree::Whole(now),
    )
}

/// The document that a retirement is hashed by: what the node was at, that it is retired,
/// and when.
pub fn retirement_document(node: &Json, now: i64) -> (r: Json)
    ensures
        r@ == retirement(node@, now),
{
    let prior = match node.field("revision") {
        Some(revision) => revision.copy(),
        None => Json::Null,
    };
    object().with("prior", prior).with("status", Json::Text("retired".to_owned())).with(
        "updatedAt",
        Json::Whole(now),
    )
}

fn retired_record(nodes: &Table<Json>, caller: &str, owner: &str, now: i64) -> (r: Result<Json, String>)
    ensures
        match r {
            Ok(record) => node_retired(nodes@, caller@, owner@, now) == Ok::<
                Tree,
                Seq<char>,
            >(record@),
            Err(e) => node_retired(nodes@, caller@, owner@, now) == Err::<
                Tree,
                Seq<char>,
            >(e@),
        },
{
    if !same(owner, caller) || !valid_finance_id(caller) {
        return Err("node owner mismatch".to_owned());
    }
    match find_object(nodes, caller) {
        None => Err("finance node not found".to_owned()),
        Some(node) => {
            let revision = finance_hash(&retirement_document(node, now));
            Ok(
                node.copy().with("status", Json::Text("retired".to_owned())).with(
                    "updatedAt",
                    Json::Whole(now),
                ).with("revision", Json::Text(revision)),
            )
        },
    }
}

// ---------------------------------------------------------------- resources

/// The key of a resource: its bucket and its identifier.
pub open spec fn resource_key(bucket: Seq<char>, id: Seq<char>) -> Seq<char> {
    bucket + "/"@ + id
}

/// The resource of a bucket.
pub open spec fn resource_under(stalls: Stalls, bucket: Seq<char>, id: Seq<char>) -> Option<Tree> {
    object_under(stalls.resources, resource_key(bucket, id))
}

fn find_resource<'a>(market: &'a Market, bucket: &str, id: &str) -> (r: Option<&'a Json>)
    ensures
        match r {
            Some(value) => resource_under(market@, bucket@, id@) == Some(value@),
            None => resource_under(market@, bucket@, id@) is None,
        },
{
    let key = join3(bucket, "/", id);
    find_object(&market.resources, key.as_str())
}

/// Whether a resource is bound to its node as the node is registered now.
pub open spec fn matches_node(resource: Tree, node: Tree) -> bool {
    &&& node.text("status"@) == Some("active"@)
    &&& resource.text("hostOriginId"@) == node.text("originId"@)
    &&& resource.text("billingMeterProgramId"@) == node.text("meterProgramId"@)
    &&& resource.text("billingMeterCreatureId"@) == node.text("meterCreatureId"@)
    &&& resource.text("billingMeterEntityId"@) == node.text("meterEntityId"@)
    &&& resource.text("nodeRegistrationRevision"@) == node.text("revision"@)
    &&& resource.whole("nodeSandboxPerMinuteMinor"@) == node.whole("sandboxPerMinuteMinor"@)
}

/// A review that was decided.
pub open spec fn is_decided(status: Option<Seq<char>>) -> bool {
    status == Some("approved"@) || status == Some("denied"@)
}

/// The review status of a resource that registers: an earlier decision stays, the platform
/// owner may decide at once, and everything else is pending.
pub open spec fn resource_status(existing: Option<Tree>, resource: Tree, caller: Seq<char>) -> Seq<
    char,
> {
    let earlier = match existing {
        Some(row) => row.text("status"@),
        None => None,
    };
    if is_decided(earlier) {
        earlier->0
    } else if caller == "1@global"@ && is_decided(resource.text("status"@)) {
        resource.text("status"@)->0
    } else {
        "pending"@
    }
}

/// The record of a resource that registers, to be merged into its bucket, or why it is
/// refused.
pub open spec fn resource_registered(
    stalls: Stalls,
    wallets: Rows<Wallet>,
    resource: Tree,
    encoded_size: int,
    caller: Seq<char>,
    now: i64,
) -> Result<Tree, Seq<char>> {
    let id = resource.text_or_empty("programId"@);
    let owner = resource.text_or_empty("owner"@);
    let host = resource.text_or_empty("hostNodeOwnerAccountId"@);
    let bucket = bucket_of(resource.text_or_empty("kind"@));
    let pricing = match resource.field("pricing"@) {
        Some(value) => value,
        None => Tree::Null,
    };
    if record_refusal(resource, encoded_size, "finance resource"@) is Some {
        Err(record_refusal(resource, encoded_size, "finance resource"@)->0)
    } else if bucket is None {
        Err("invalid finance resource kind"@)
    } else if caller != host || !is_finance_id(id) || !is_finance_id(owner) || !has_account(
        wallets,
        owner,
    ) || !has_safe_numbers(pricing) {
        Err("invalid host-attested finance resource"@)
    } else {
        match object_under(stalls.nodes, host) {
            None => Err("finance execution node not registered"@),
            Some(node) => {
                let existing = resource_under(stalls, bucket->0, id);
                if !matches_node(resource, node) {
                    Err("resource does not match its active finance node"@)
                } else if existing is Some && existing->0.text("hostNodeOwnerAccountId"@) != Some(
                    host,
                ) {
                    Err("resource migration requires a new program id"@)
                } else {
                    Ok(
                        resource.with(
                            "status"@,
                            Tree::Text(resource_status(existing, resource, caller)),
                        ).with("federated"@, Tree::Bool(true)).with(
                            "registeredAt"@,
                            Tree::Whole(now),
                        ),
                    )
                }
            },
        }
    }
}

fn same_texts(a: Option<&str>, b: Option<&str>) -> (r: bool)
    ensures
        r == (opt_text(a) == opt_text(b)),
{
    match (a, b) {
        (Some(x), Some(y)) => same(x, y),
        (None, None) => true,
        _ => false,
    }
}

/// The text of an optional string slice.
pub open spec fn opt_text(s: Option<&str>) -> Option<Seq<char>> {
    match s {
        Some(text) => Some(text@),
        None => None,
    }
}

fn check_node_match(resource: &Json, node: &Json) -> (r: bool)
    ensures
        r == matches_node(resource@, node@),
{
    node.has_text("status", "active") && same_texts(
        resource.text("hostOriginId"),
        node.text("originId"),
    ) && same_texts(resource.text("billingMeterProgramId"), node.text("meterProgramId"))
        && same_texts(resource.text("billingMeterCreatureId"), node.text("meterCreatureId"))
        && same_texts(resource.text("billingMeterEntityId"), node.text("meterEntityId"))
        && same_texts(resource.text("nodeRegistrationRevision"), node.text("revision")) && (match (
        resource.whole("nodeSandboxPerMinuteMinor"),
        node.whole("sandboxPerMinuteMinor"),
    ) {
        (Some(a), Some(b)) => a == b,
        (None, None) => true,
        _ => false,
    })
}

fn decided(value: &Json) -> (r: Option<String>)
    ensures
        match r {
            Some(status) => is_decided(value@.text("status"@)) && value@.text("status"@) == Some(
                status@,
            ),
            None => !is_decided(value@.text("status"@)),
        },
{
    match value.text("status") {
        Some(status) => if same(status, "approved") || same(status, "denied") {
            Some(status.to_owned())
        } else {
            None
        },
        None => None,
    }
}

fn choose_status(existing: Option<&Json>, resource: &Json, caller: &str) -> (r: String)
    ensures
        r@ == resource_status(
            match existing {
                Some(row) => Some(row@),
                None => None,
            },
            resource@,
            caller@,
        ),
{
    match existing {
        Some(row) => match decided(row) {
            Some(status) => {
                return status;
            },
            None => {},
        },
        None => {},
    }
    if same(caller, "1@global") {
        match decided(resource) {
            Some(status) => {
                return status;
            },
            None => {},
        }
    }
    "pending".to_owned()
}

/// The record that a resource of the given encoded size registers.
pub fn resource_record(
    market: &Market,
    wallets: &Table<Wallet>,
    resource: &Json,
    encoded_size: usize,
    caller: &str,
    now: i64,
) -> (r: Result<Json, String>)
    ensures
        match r {
            Ok(record) => resource_registered(
                market@,
                wallets@,
                resource@,
                encoded_size as int,
                caller@,
                now,
            ) == Ok::<Tree, Seq<char>>(record@),
            Err(e) => resource_registered(
                market@,
                wallets@,
                resource@,
                encoded_size as int,
                caller@,
                now,
            ) == Err::<Tree, Seq<char>>(e@),
        },
{
    match check_record(resource, encoded_size, "finance resource") {
        Some(e) => {
            return Err(e);
        },
        None => {},
    }
    let id = resource.text_or_empty("programId");
    let owner = resource.text_or_empty("owner");
    let host = resource.text_or_empty("hostNodeOwnerAccountId");
    let bucket = match federated_finance_market_bucket(resource.text_or_empty("kind")) {
        Some(bucket) => bucket,
        None => {
            return Err("invalid finance resource kind".to_owned());
        },
    };
    let null = Json::Null;
    let pricing: &Json = match resource.field("pricing") {
        Some(value) => value,
        None => &null,
    };
    if !same(caller, host) || !valid_finance_id(id) || !valid_finance_id(owner) || !account_exists(
        wallets,
        owner,
    ) || !federated_finance_safe_numbers(pricing) {
        return Err("invalid host-attested finance resource".to_owned());
    }
    let node = match find_object(&market.nodes, host) {
        Some(node) => node,
        None => {
            return Err("finance execution node not registered".to_owned());
        },
    };
    if !check_node_match(resource, node) {
        return Err("resource does not match its active finance node".to_owned());
    }
    let existing = find_resource(market, bucket, id);
    match existing {
        Some(row) => {
            if !row.has_text("hostNodeOwnerAccountId", host) {
                return Err("resource migration requires a new program id".to_owned());
            }
        },
        None => {},
    }
    let status = choose_status(existing, resource, caller);
    Ok(
        resource.copy().with("status", Json::Text(status)).with("federated", Json::Bool(true)).with(
            "registeredAt",
            Json::Whole(now),
        ),
    )
}

/// A decision on a resource.
pub struct ReviewFinanceResourceInput {
    pub kind: String,
    pub resource_id: String,
    pub status: String,
    pub reason: String,
}

/// The record of a reviewed resource, to be merged into its bucket, or why it is refused.
pub open spec fn resource_reviewed(
    stalls: Stalls,
    caller: Seq<char>,
    input: ReviewFinanceResourceInput,
    now: i64,
) -> Result<Tree, Seq<char>> {
    if caller != "1@global"@ || !is_decided(Some(input.status@)) {
        Err("global finance approver required"@)
    } else {
        match bucket_of(input.kind@) {
            None => Err("invalid finance resource kind"@),
            Some(bucket) => match resource_under(stalls, bucket, input.resource_id@) {
                None => Err("finance resource not found"@),
                Some(resource) => {
                    let reviewed = resource.with("status"@, Tree::Text(input.status@)).with(
                        "reviewedBy"@,
                        Tree::Text(caller),
                    ).with("reviewedAt"@, Tree::Whole(now));
                    Ok(
                        if input.reason@.len() > 0 {
                            reviewed.with("reason"@, Tree::Text(input.reason@))
                        } else {
                            reviewed
                        },
                    )
                },
            },
        }
    }
}

fn decided_record(
    market: &Market,
    caller: &str,
    input: &ReviewFinanceResourceInput,
    now: i64,
) -> (r: Result<Json, String>)
    ensures
        match r {
            Ok(record) => resource_reviewed(market@, caller@, *input, now) == Ok::<Tree, Seq<char>>(
                record@,
            ),
            Err(e) => resource_reviewed(market@, caller@, *input, now) == Err::<Tree, Seq<char>>(
                e@,
            ),
        },
{
    if !same(caller, "1@global") || !(same(input.status.as_str(), "approved") || same(
        input.status.as_str(),
        "denied",
    )) {
        return Err("global finance approver required".to_owned());
    }
    let bucket = match federated_finance_market_bucket(input.kind.as_str()) {
        Some(bucket) => bucket,
        None => {
            return Err("invalid finance resource kind".to_owned());
        },
    };
    let resource = match find_resource(market, bucket, input.resource_id.as_str()) {
        Some(resource) => resource,
        None => {
            return Err("finance resource not found".to_owned());
        },
    };
    let reviewed = resource.copy().with("status", Json::Text(input.status.clone())).with(
        "reviewedBy",
        Json::Text(caller.to_owned()),
    ).with("reviewedAt", Json::Whole(now));
    if input.reason.as_str().is_empty() {
        Ok(reviewed)
    } else {
        Ok(reviewed.with("reason", Json::Text(input.reason.clone())))
    }
}

/// Why a resource cannot be retired by the caller; its host and the platform owner may.
pub open spec fn retire_refusal(
    stalls: Stalls,
    caller: Seq<char>,
    kind: Seq<char>,
    id: Seq<char>,
) -> Option<Seq<char>> {
    match bucket_of(kind) {
        None => Some("invalid finance resource kind"@),
        Some(bucket) => match resource_under(stalls, bucket, id) {
            None => Some("finance resource not found"@),
            Some(resource) => if caller != resource.text_or_empty("hostNodeOwnerAccountId"@)
                && caller != "1@global"@ {
                Some("resource host or global approver required"@)
            } else {
                None
            },
        },
    }
}

fn refuse_retirement(market: &Market, caller: &str, kind: &str, resource_id: &str) -> (r:
    Option<String>)
    ensures
        match r {
            Some(e) => retire_refusal(market@, caller@, kind@, resource_id@) == Some(e@),
            None => retire_refusal(market@, caller@, kind@, resource_id@) is None,
        },
{
    let bucket = match federated_finance_market_bucket(kind) {
        Some(bucket) => bucket,
        None => {
            return Some("invalid finance resource kind".to_owned());
        },
    };
    match find_resource(market, bucket, resource_id) {
        None => Some("finance resource not found".to_owned()),
        Some(resource) => if !same(caller, resource.text_or_empty("hostNodeOwnerAccountId"))
            && !same(caller, "1@global") {
            Some("resource host or global approver required".to_owned())
        } else {
            None
        },
    }
}

// ---------------------------------------------------------------- quotes

/// Whether the execution of a quoted resource is bound as the resource and its node are
/// registered now.
pub open spec fn matches_binding(execution: Tree, resource: Tree, node: Tree) -> bool {
    &&& node.text("status"@) == Some("active"@)
    &&& same_value(
        execution.field("nodeOwnerAccountId"@),
        resource.field("hostNodeOwnerAccountId"@),
    )
    &&& same_value(execution.field("hostOriginId"@), resource.field("hostOriginId"@))
    &&& same_value(execution.field("meterProgramId"@), resource.field("billingMeterProgramId"@))
    &&& same_value(execution.field("meterCreatureId"@), resource.field("billingMeterCreatureId"@))
    &&& same_value(execution.field("meterEntityId"@), resource.field("billingMeterEntityId"@))
    &&& same_value(
        execution.field("nodeRegistrationRevision"@),
        resource.field("nodeRegistrationRevision"@),
    )
    &&& same_value(
        execution.field("sandboxPerMinuteMinor"@),
        resource.field("nodeSandboxPerMinuteMinor"@),
    )
    &&& same_value(resource.field("hostOriginId"@), node.field("originId"@))
    &&& same_value(resource.field("billingMeterProgramId"@), node.field("meterProgramId"@))
    &&& same_value(resource.field("billingMeterCreatureId"@), node.field("meterCreatureId"@))
    &&& same_value(resource.field("billingMeterEntityId"@), node.field("meterEntityId"@))
    &&& same_value(resource.field("nodeRegistrationRevision"@), node.field("revision"@))
    &&& same_value(
        resource.field("nodeSandboxPerMinuteMinor"@),
        node.field("sandboxPerMinuteMinor"@),
    )
    &&& same_value(execution.field("settlementAuthority"@), node.field("settlementAuthority"@))
}

/// Why a quoted resource cannot be executed as quoted.
pub open spec fn quoted_resource_refusal(stalls: Stalls, execution: Tree) -> Option<Seq<char>> {
    let id = execution.text_or_empty("resourceId"@);
    match bucket_of(execution.text_or_empty("kind"@)) {
        None => Some("invalid quote execution resource kind"@),
        Some(bucket) => if !is_finance_id(id) {
            Some("invalid quote execution resource id"@)
        } else {
            match resource_under(stalls, bucket, id) {
                None => Some("quoted resource is not globally registered"@),
                Some(resource) => if resource.text("status"@) != Some("approved"@) {
                    Some("quoted resource is not globally approved"@)
                } else {
                    match object_under(
                        stalls.nodes,
                        resource.text_or_empty("hostNodeOwnerAccountId"@),
                    ) {
                        None => Some("quoted resource node is not registered"@),
                        Some(node) => if !matches_binding(execution, resource, node) {
                            Some("quote execution does not match the active global resource binding"@)
                        } else {
                            None
                        },
                    }
                },
            }
        },
    }
}

fn check_binding(execution: &Json, resource: &Json, node: &Json) -> (r: bool)
    ensures
        r == matches_binding(execution@, resource@, node@),
{
    node.has_text("status", "active") && same_values(
        execution.field("nodeOwnerAccountId"),
        resource.field("hostNodeOwnerAccountId"),
    ) && same_values(execution.field("hostOriginId"), resource.field("hostOriginId")) && same_values(
        execution.field("meterProgramId"),
        resource.field("billingMeterProgramId"),
    ) && same_values(
        execution.field("meterCreatureId"),
        resource.field("billingMeterCreatureId"),
    ) && same_values(execution.field("meterEntityId"), resource.field("billingMeterEntityId"))
        && same_values(
        execution.field("nodeRegistrationRevision"),
        resource.field("nodeRegistrationRevision"),
    ) && same_values(
        execution.field("sandboxPerMinuteMinor"),
        resource.field("nodeSandboxPerMinuteMinor"),
    ) && same_values(resource.field("hostOriginId"), node.field("originId")) && same_values(
        resource.field("billingMeterProgramId"),
        node.field("meterProgramId"),
    ) && same_values(resource.field("billingMeterCreatureId"), node.field("meterCreatureId"))
        && same_values(resource.field("billingMeterEntityId"), node.field("meterEntityId"))
        && same_values(resource.field("nodeRegistrationRevision"), node.field("revision"))
        && same_values(
        resource.field("nodeSandboxPerMinuteMinor"),
        node.field("sandboxPerMinuteMinor"),
    ) && same_values(execution.field("settlementAuthority"), node.field("settlementAuthority"))
}

/// Check that a quoted resource can be executed as quoted; `None` where it can.
pub fn validate_federated_quote_resource(market: &Market, execution: &Json) -> (r: Option<String>)
    ensures
        match r {
            Some(e) => quoted_resource_refusal(market@, execution@) == Some(e@),
            None => quoted_resource_refusal(market@, execution@) is None,
        },
{
    let id = execution.text_or_empty("resourceId");
    let bucket = match federated_finance_market_bucket(execution.text_or_empty("kind")) {
        Some(bucket) => bucket,
        None => {
            return Some("invalid quote execution resource kind".to_owned());
        },
    };
    if !valid_finance_id(id) {
        return Some("invalid quote execution resource id".to_owned());
    }
    let resource = match find_resource(market, bucket, id) {
        Some(resource) => resource,
        None => {
            return Some("quoted resource is not globally registered".to_owned());
        },
    };
    if !resource.has_text("status", "approved") {
        return Some("quoted resource is not globally approved".to_owned());
    }
    let node = match find_object(
        &market.nodes,
        resource.text_or_empty("hostNodeOwnerAccountId"),
    ) {
        Some(node) => node,
        None => {
            return Some("quoted resource node is not registered".to_owned());
        },
    };
    if !check_binding(execution, resource, node) {
        return Some(
            "quote execution does not match the active global resource binding".to_owned(),
        );
    }
    None
}

// ---------------------------------------------------------------- filing

/// The rows with a record laid over what is filed under a key.
pub open spec fn filed(rows: Rows<Tree>, key: Seq<char>, record: Tree) -> Rows<Tree> {
    stored(
        rows,
        key,
        match lookup(rows, key) {
            Some(earlier) => merged(earlier, record),
            None => record,
        },
    )
}

fn file_record(rows: &mut Table<Json>, key: &str, record: &Json)
    ensures
        final(rows)@ == filed(old(rows)@, key@, record@),
{
    let next: Json = match rows.get(key) {
        Some(earlier) => earlier.merge(record),
        None => record.copy(),
    };
    rows.put(key, next);
}

/// The market with the record of a node under its owner.
pub open spec fn node_filed(stalls: Stalls, owner: Seq<char>, record: Tree) -> Stalls {
    Stalls { nodes: filed(stalls.nodes, owner, record), ..stalls }
}

/// The market with the record of a resource in the bucket of its kind.
pub open spec fn resource_filed(stalls: Stalls, kind: Seq<char>, id: Seq<char>, record: Tree) -> Stalls {
    Stalls {
        resources: filed(stalls.resources, resource_key(bucket_of(kind)->0, id), record),
        ..stalls
    }
}

fn file_resource(market: &mut Market, kind: &str, id: &str, record: &Json)
    requires
        bucket_of(kind@) is Some,
    ensures
        final(market)@ == resource_filed(old(market)@, kind@, id@, record@),
{
    if let Some(bucket) = federated_finance_market_bucket(kind) {
        let key = join3(bucket, "/", id);
        file_record(&mut market.resources, key.as_str(), record);
    }
}

/// Register an execution node under its owner. Fields of an earlier record that the new one
/// does not have stay.
pub fn register_finance_node(
    market: &mut Market,
    wallets: &Table<Wallet>,
    node: &Json,
    caller: &str,
    now: i64,
) -> (r: Result<Json, String>)
    ensures
        match r {
            Ok(record) => node_registered(node@, json_bytes(node@).len() as int, wallets@, caller@, now)
                == Ok::<Tree, Seq<char>>(record@) && final(market)@ == node_filed(
                old(market)@,
                caller@,
                record@,
            ),
            Err(e) => final(market)@ == old(market)@ && node_registered(
                node@,
                json_bytes(node@).len() as int,
                wallets@,
                caller@,
                now,
            ) == Err::<Tree, Seq<char>>(e@),
        },
{
    let encoded = json_encode(node);
    match node_record(node, encoded.len(), wallets, caller, now) {
        Ok(record) => {
            file_record(&mut market.nodes, caller, &record);
            Ok(record)
        },
        Err(e) => Err(e),
    }
}

/// Retire an execution node.
pub fn retire_finance_node(
    market: &mut Market,
    caller: &str,
    owner: &str,
    now: i64,
) -> (r: Result<Json, String>)
    ensures
        match r {
            Ok(record) => node_retired(old(market)@.nodes, caller@, owner@, now) == Ok::<
                Tree,
                Seq<char>,
            >(record@) && final(market)@ == node_filed(old(market)@, caller@, record@),
            Err(e) => final(market)@ == old(market)@ && node_retired(
                old(market)@.nodes,
                caller@,
                owner@,
                now,
            ) == Err::<Tree, Seq<char>>(e@),
        },
{
    match retired_record(&market.nodes, caller, owner, now) {
        Ok(record) => {
            file_record(&mut market.nodes, caller, &record);
            Ok(record)
        },
        Err(e) => Err(e),
    }
}

/// Register a priced resource of an execution node.
pub fn register_finance_resource(
    market: &mut Market,
    wallets: &Table<Wallet>,
    resource: &Json,
    caller: &str,
    now: i64,
) -> (r: Result<Json, String>)
    ensures
        match r {
            Ok(record) => resource_registered(
                old(market)@,
                wallets@,
                resource@,
                json_bytes(resource@).len() as int,
                caller@,
                now,
            ) == Ok::<Tree, Seq<char>>(record@) && final(market)@ == resource_filed(
                old(market)@,
                resource@.text_or_empty("kind"@),
                resource@.text_or_empty("programId"@),
                record@,
            ),
            Err(e) => final(market)@ == old(market)@ && resource_registered(
                old(market)@,
                wallets@,
                resource@,
                json_bytes(resource@).len() as int,
                caller@,
                now,
            ) == Err::<Tree, Seq<char>>(e@),
        },
{
    let encoded = json_encode(resource);
    match resource_record(&*market, wallets, resource, encoded.len(), caller, now) {
        Ok(record) => {
            file_resource(
                market,
                resource.text_or_empty("kind"),
                resource.text_or_empty("programId"),
                &record,
            );
            Ok(record)
        },
        Err(e) => Err(e),
    }
}

/// Decide on a resource as the platform owner.
pub fn review_finance_resource(
    market: &mut Market,
    caller: &str,
    input: &ReviewFinanceResourceInput,
    now: i64,
) -> (r: Result<Json, String>)
    ensures
        match r {
            Ok(record) => resource_reviewed(old(market)@, caller@, *input, now) == Ok::<
                Tree,
                Seq<char>,
            >(record@) && final(market)@ == resource_filed(
                old(market)@,
                input.kind@,
                input.resource_id@,
                record@,
            ),
            Err(e) => final(market)@ == old(market)@ && resource_reviewed(
                old(market)@,
                caller@,
                *input,
                now,
            ) == Err::<Tree, Seq<char>>(e@),
        },
{
    match decided_record(&*market, caller, input, now) {
        Ok(record) => {
            file_resource(market, input.kind.as_str(), input.resource_id.as_str(), &record);
            Ok(record)
        },
        Err(e) => Err(e),
    }
}

/// Retire a resource as its host or the platform owner: nothing is left under its id.
pub fn retire_finance_resource(market: &mut Market, caller: &str, kind: &str, resource_id: &str) -> (r:
    Result<(), String>)
    ensures
        match r {
            Ok(_) => retire_refusal(old(market)@, caller@, kind@, resource_id@) is None
                && final(market)@ == resource_filed(
                old(market)@,
                kind@,
                resource_id@,
                Tree::Null,
            ),
            Err(e) => final(market)@ == old(market)@ && retire_refusal(
                old(market)@,
                caller@,
                kind@,
                resource_id@,
            ) == Some(e@),
        },
{
    match refuse_retirement(&*market, caller, kind, resource_id) {
        Some(e) => Err(e),
        None => {
            file_resource(market, kind, resource_id, &Json::Null);
            Ok(())
        },
    }
}

/// A resource that was retired cannot be executed as quoted until it registers again.
pub proof fn law_a_retired_resource_is_not_quoted(stalls: Stalls, execution: Tree)
    requires
        bucket_of(execution.text_or_empty("kind"@)) is Some,
        is_finance_id(execution.text_or_empty("resourceId"@)),
    ensures
        quoted_resource_refusal(
            resource_filed(
                stalls,
                execution.text_or_empty("kind"@),
                execution.text_or_empty("resourceId"@),
                Tree::Null,
            ),
            execution,
        ) == Some("quoted resource is not globally registered"@),
{
}

/// A node that registered is active under its owner, with the revision that it registered.
pub proof fn law_a_registered_node_is_active(
    nodes: Rows<Tree>,
    node: Tree,
    encoded_size: int,
    wallets: Rows<Wallet>,
    caller: Seq<char>,
    now: i64,
)
    requires
        node is Object,
        distinct(node.fields()),
        node.text("revision"@) is Some,
    ensures
        node_registered(node, encoded_size, wallets, caller, now) matches Ok(record) ==> {
            let after = filed(nodes, caller, record);
            &&& lookup(after, caller)->0.text("status"@) == Some("active"@)
            &&& lookup(after, caller)->0.text("revision"@) == node.text("revision"@)
        },
{
    if let Ok(record) = node_registered(node, encoded_size, wallets, caller, now) {
        let one = node.with("status"@, Tree::Text("active"@));
        law_store_keeps_keys_distinct(node.fields(), "status"@, Tree::Text("active"@));
        law_store_keeps_keys_distinct(one.fields(), "updatedAt"@, Tree::Whole(now));
        reveal_strlit("status");
        reveal_strlit("updatedAt");
        reveal_strlit("revision");
        assert("status"@.len() == 6);
        assert("updatedAt"@.len() == 9);
        assert("revision"@.len() == 8);
        match lookup(nodes, caller) {
            Some(earlier) => {
                law_merged_texts_are_the_upper_ones(earlier, record, "status"@);
                law_merged_texts_are_the_upper_ones(earlier, record, "revision"@);
            },
            None => {},
        }
    }
}

} // verus!
