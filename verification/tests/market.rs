use aseman_node::finance::holds::{
    create_hold, write_signed_request, CreateHoldInput, HoldFacts,
};
use aseman_node::finance::ids::{
    finance_beneficiary_plan_hash, finance_hash, finance_hold_key, finance_live_debit_key,
    finance_payout_key, finance_pool_key, finance_pool_reservation_key,
    finance_project_budget_key, HoldBeneficiaryInput,
};
use aseman_node::finance::ledger::{Ledger, Wallet};
use aseman_node::finance::market::{
    check_record, federated_finance_market_bucket, federated_finance_object, federated_finance_safe_numbers,
    publish_finance_catalog, register_finance_node, register_finance_resource,
    retire_finance_node, retire_finance_resource, review_finance_resource, Market,
    ReviewFinanceResourceInput,
};
use aseman_node::finance::quotes::publish_finance_quote;
use aseman_node::json::Json;
use aseman_node::table::Table;

const NOW: i64 = 1_800_000_000_000;

fn s(value: &str) -> String {
    value.to_string()
}

fn text(value: &str) -> Json {
    Json::Text(s(value))
}

fn object(fields: Vec<(&str, Json)>) -> Json {
    Json::Object(fields.into_iter().map(|(k, v)| (k.to_string(), v)).collect())
}

fn refused<T>(r: Result<T, String>) -> String {
    match r {
        Ok(_) => panic!("expected a refusal"),
        Err(e) => e,
    }
}

fn wallets() -> Table<Wallet> {
    let mut t = Table::new();
    for user in ["1@global", "5@global", "7@global"] {
        t.put(
            user,
            Wallet {
                balance: Some(1000),
                held: 0,
                debt: 0,
                withdrawable: 0,
                payout_held: 0,
                earned: 0,
                spent: 0,
            },
        );
    }
    t
}

fn ledger() -> Ledger {
    let mut l = Ledger::new();
    l.wallets = wallets();
    l
}

fn market() -> Market {
    Market {
        catalogs: Table::new(),
        current: Json::Object(vec![]),
        nodes: Table::new(),
        resources: Table::new(),
    }
}

fn catalog() -> Json {
    object(vec![
        ("version", text("v1")),
        ("tokenScale", Json::Whole(100)),
        ("defaultInputPerMillionMinor", Json::Whole(1)),
        ("defaultOutputPerMillionMinor", Json::Whole(2)),
        ("sandboxPerMinuteMinor", Json::Whole(3)),
        ("minChargeMinor", Json::Whole(1)),
        ("platformCommissionBps", Json::Whole(500)),
        ("authorizationSafetyBps", Json::Whole(12_000)),
        ("quoteTtlMs", Json::Whole(1000)),
        ("holdTtlMs", Json::Whole(2000)),
        ("settlementAuthority", text("1@global")),
        ("platformAccountId", text("1@global")),
        ("providerClearingAccountId", text("1@global")),
        ("nodeOwnerAccountId", text("1@global")),
    ])
}

fn revision() -> String {
    "ab".repeat(32)
}

fn node() -> Json {
    object(vec![
        ("nodeOwnerAccountId", text("5@global")),
        ("settlementAuthority", text("5@global")),
        ("originId", text("https://node.example")),
        ("meterProgramId", text("meter")),
        ("talentMeterProgramId", text("tmeter")),
        ("meterCreatureId", text("mc")),
        ("meterEntityId", text("me")),
        ("talentMeterCreatureId", text("tmc")),
        ("talentMeterEntityId", text("tme")),
        ("revision", Json::Text(revision())),
        ("sandboxPerMinuteMinor", Json::Whole(3)),
    ])
}

fn resource() -> Json {
    object(vec![
        ("kind", text("agent")),
        ("programId", text("prog-1")),
        ("owner", text("7@global")),
        ("hostNodeOwnerAccountId", text("5@global")),
        ("hostOriginId", text("https://node.example")),
        ("billingMeterProgramId", text("meter")),
        ("billingMeterCreatureId", text("mc")),
        ("billingMeterEntityId", text("me")),
        ("nodeRegistrationRevision", Json::Text(revision())),
        ("nodeSandboxPerMinuteMinor", Json::Whole(3)),
        ("pricing", object(vec![("perRun", Json::Whole(5))])),
    ])
}

fn opened() -> Market {
    let mut m = market();
    publish_finance_catalog(&mut m, &wallets(), "1@global", &catalog()).unwrap_or_else(
        |e| panic!("{e}"),
    );
    assert!(register_finance_node(&mut m, &wallets(), &node(), "5@global", NOW).is_ok());
    assert!(
        register_finance_resource(&mut m, &wallets(), &resource(), "5@global", NOW).is_ok()
    );
    m
}

fn decide(m: &mut Market, status: &str) {
    let input = ReviewFinanceResourceInput {
        kind: s("agent"),
        resource_id: s("prog-1"),
        status: s(status),
        reason: s("fine"),
    };
    match review_finance_resource(m, "1@global", &input, NOW) {
        Ok(row) => assert_eq!(row.text("reason"), Some("fine")),
        Err(e) => panic!("{e}"),
    }
}

fn quote() -> Json {
    let execution = vec![
        ("settlementAuthority", text("5@global")),
        ("meterProgramId", text("meter")),
        ("meterCreatureId", text("mc")),
        ("meterEntityId", text("me")),
    ];
    let mut row = execution.clone_fields();
    row.extend(vec![
        ("kind", text("agent")),
        ("resourceId", text("prog-1")),
        ("nodeOwnerAccountId", text("5@global")),
        ("hostOriginId", text("https://node.example")),
        ("nodeRegistrationRevision", Json::Text(revision())),
        ("sandboxPerMinuteMinor", Json::Whole(3)),
    ]);
    let mut plan = execution;
    plan.push(("resources", Json::Array(vec![object(row)])));
    object(vec![
        ("quoteId", text("q1")),
        ("payerUserId", text("7@global")),
        ("kind", text("agent")),
        ("resourceId", text("prog-1")),
        ("pricingVersion", text("v1")),
        ("maxAmount", Json::Whole(50)),
        (
            "holdRequest",
            object(vec![
                ("quoteId", text("q1")),
                ("maxAmount", Json::Whole(50)),
                ("settlementAuthority", text("5@global")),
                ("meterProgramId", text("meter")),
                (
                    "beneficiaries",
                    Json::Array(vec![object(vec![
                        ("userId", text("5@global")),
                        ("maxAmount", Json::Whole(50)),
                    ])]),
                ),
            ]),
        ),
        ("executionPlan", object(plan)),
    ])
}

trait CloneFields {
    fn clone_fields(&self) -> Vec<(&'static str, Json)>;
}

impl CloneFields for Vec<(&'static str, Json)> {
    fn clone_fields(&self) -> Vec<(&'static str, Json)> {
        self.iter().map(|(k, v)| (*k, v.copy())).collect()
    }
}

#[test]
fn catalogs_are_published_once() {
    let mut m = market();
    let mut go = |caller: &str, c: &Json| {
        publish_finance_catalog(&mut m, &wallets(), caller, c)
    };
    match go("1@global", &catalog()) {
        Ok(reply) => {
            assert!(!reply.already_published);
            assert_eq!(reply.catalog_hash, finance_hash(&catalog()));
        }
        Err(e) => panic!("{e}"),
    }
    match go("1@global", &catalog()) {
        Ok(reply) => assert!(reply.already_published),
        Err(e) => panic!("{e}"),
    }
    let with = |key: &str, value: Json| catalog().with(key, value);
    assert_eq!(refused(go("5@global", &catalog())), "global platform owner required");
    assert_eq!(
        refused(go("1@global", &with("minChargeMinor", Json::Whole(9)))),
        "pricing version is immutable"
    );
    assert_eq!(
        refused(go("1@global", &catalog().without("holdTtlMs"))),
        "invalid finance catalog integer: holdTtlMs"
    );
    assert_eq!(
        refused(go("1@global", &with("tokenScale", Json::Whole(0)))),
        "tokenScale and sandbox rate must be positive"
    );
    assert_eq!(
        refused(go("1@global", &with("platformCommissionBps", Json::Whole(10_001)))),
        "invalid finance catalog policy"
    );
    assert_eq!(
        refused(go("1@global", &with("platformAccountId", text("9@global")))),
        "invalid finance catalog account: platformAccountId"
    );
    assert_eq!(refused(go("1@global", &with("tokenScale", Json::Whole(-1)))), "invalid finance catalog");
    assert_eq!(refused(go("1@global", &Json::Null)), "finance catalog must be an object");
}

#[test]
fn nodes_register_and_retire() {
    let mut m = market();
    let row = register_finance_node(&mut m, &wallets(), &node(), "5@global", NOW)
        .unwrap_or_else(|e| panic!("{e}"));
    assert_eq!((row.text("status"), row.whole("updatedAt")), (Some("active"), Some(NOW)));
    assert_eq!(m.nodes.get("5@global").unwrap().text("status"), Some("active"));
    let broken = node().with("originId", text("not an origin"));
    assert_eq!(
        refused(register_finance_node(&mut m, &wallets(), &broken, "5@global", NOW)),
        "invalid host-attested finance node registration"
    );
    assert_eq!(
        refused(register_finance_node(&mut m, &wallets(), &node(), "7@global", NOW)),
        "invalid host-attested finance node registration"
    );
    assert_eq!(
        refused(retire_finance_node(&mut m, "5@global", "7@global", NOW)),
        "node owner mismatch"
    );
    assert_eq!(
        refused(retire_finance_node(&mut m, "7@global", "7@global", NOW)),
        "finance node not found"
    );
    let retired = retire_finance_node(&mut m, "5@global", "5@global", NOW)
        .unwrap_or_else(|e| panic!("{e}"));
    assert_eq!(retired.text("status"), Some("retired"));
    // The digest of `{"prior":"abab..","status":"retired","updatedAt":1800000000000}`.
    assert_eq!(
        retired.text("revision"),
        Some("e14ae09e53117e0742865922d9adda1e731d4017ff7e40604549457bd3c7aca8")
    );
    assert_eq!(m.nodes.get("5@global").unwrap().text("status"), Some("retired"));
}

#[test]
fn resources_are_bound_to_their_node() {
    let mut m = opened();
    assert_eq!(m.resources.get("agents/prog-1").unwrap().text("status"), Some("pending"));
    let mut go = |r: Json, caller: &str| {
        refused(register_finance_resource(&mut m, &wallets(), &r, caller, NOW))
    };
    assert_eq!(go(resource().with("kind", text("ship")), "5@global"), "invalid finance resource kind");
    assert_eq!(go(resource(), "7@global"), "invalid host-attested finance resource");
    assert_eq!(
        go(resource().with("billingMeterEntityId", text("other")), "5@global"),
        "resource does not match its active finance node"
    );
    assert!(retire_finance_resource(&mut m, "7@global", "agent", "prog-1").is_err());
    assert_eq!(
        retire_finance_resource(&mut m, "5@global", "tool", "prog-1"),
        Err(s("finance resource not found"))
    );
    assert_eq!(retire_finance_resource(&mut m, "5@global", "agent", "prog-1"), Ok(()));
    assert_eq!(
        retire_finance_resource(&mut m, "1@global", "agent", "prog-1"),
        Err(s("finance resource not found"))
    );
}

#[test]
fn decisions_on_resources_stay() {
    let mut m = opened();
    decide(&mut m, "approved");
    let again = register_finance_resource(&mut m, &wallets(), &resource(), "5@global", NOW)
        .unwrap_or_else(|e| panic!("{e}"));
    assert_eq!(again.text("status"), Some("approved"));
    let input = ReviewFinanceResourceInput {
        kind: s("agent"),
        resource_id: s("prog-1"),
        status: s("maybe"),
        reason: s(""),
    };
    assert!(review_finance_resource(&mut m, "1@global", &input, NOW).is_err());
}

#[test]
fn quotes_are_published_once() {
    let mut m = opened();
    let mut l = ledger();
    assert_eq!(
        refused(publish_finance_quote(&m, &mut l, "5@global", &quote(), NOW)),
        "quoted resource is not globally approved"
    );
    decide(&mut m, "approved");
    match publish_finance_quote(&m, &mut l, "5@global", &quote(), NOW) {
        Ok(reply) => {
            assert!(!reply.already_published);
            assert_eq!(reply.quote.text("quoteIssuerNodeOwnerId"), Some("5@global"));
            assert_eq!(reply.quote.whole("publishedAt"), Some(NOW));
        }
        Err(e) => panic!("{e}"),
    }
    match publish_finance_quote(&m, &mut l, "5@global", &quote(), NOW + 1) {
        Ok(reply) => {
            assert!(reply.already_published);
            assert_eq!(reply.quote.whole("publishedAt"), Some(NOW));
        }
        Err(e) => panic!("{e}"),
    }
    let changed = quote().with("note", text("new"));
    assert_eq!(
        refused(publish_finance_quote(&m, &mut l, "5@global", &changed, NOW)),
        "quote id is immutable"
    );
}

#[test]
fn a_hold_stands_on_the_quote_that_was_published() {
    let mut m = opened();
    decide(&mut m, "approved");
    let mut l = ledger();
    let plan = vec![HoldBeneficiaryInput {
        user_id: s("5@global"),
        role: s("host"),
        max_amount: 50,
    }];
    let input = CreateHoldInput {
        quote_id: s("q1"),
        pricing_version: s("v1"),
        max_amount: 50,
        meter_program_id: s("meter"),
        settlement_authority: s("5@global"),
        expires_at: NOW + 60_000,
        context_hash: "a".repeat(64),
        beneficiary_plan_hash: finance_beneficiary_plan_hash(&plan),
        beneficiaries: plan,
        idempotency_key: s("key-1"),
    };
    let facts = HoldFacts {
        payer_in_project: false,
        project: None,
        meter_exists: true,
    };
    let request = write_signed_request(&input);
    let priced = quote()
        .with("holdRequest", request)
        .with("expiresAt", Json::Whole(NOW + 60_000));
    assert_eq!(
        refused(create_hold(&mut l, "7@global", &input, &facts, NOW, "h1", "j1")),
        "billing quote not found"
    );
    assert!(publish_finance_quote(&m, &mut l, "5@global", &priced, NOW).is_ok());
    let dearer = CreateHoldInput { max_amount: 51, ..input };
    assert_eq!(
        refused(create_hold(&mut l, "7@global", &dearer, &facts, NOW, "h1", "j1")),
        "hold request does not match server quote"
    );
    let input = CreateHoldInput { max_amount: 50, ..dearer };
    match create_hold(&mut l, "7@global", &input, &facts, NOW, "h1", "j1") {
        Ok(reply) => {
            assert_eq!(Some(reply.hold.max_amount), priced.whole("maxAmount"));
            assert_eq!(
                reply.hold.request_hash,
                finance_hash(&write_signed_request(&input))
            );
        }
        Err(e) => panic!("{e}"),
    }
}

#[test]
fn quotes_are_checked() {
    let mut m = opened();
    decide(&mut m, "approved");
    let mut l = ledger();
    let mut go =
        |q: Json| refused(publish_finance_quote(&m, &mut l, "5@global", &q, NOW));
    assert_eq!(go(quote().without("holdRequest")), "quote holdRequest missing");
    assert_eq!(go(quote().without("executionPlan")), "quote executionPlan missing");
    assert_eq!(go(quote().with("pricingVersion", text("v2"))), "invalid immutable finance quote");
    let plan = quote().field("executionPlan").unwrap().copy();
    assert_eq!(
        go(quote().with("executionPlan", plan.copy().without("resources"))),
        "quote execution resources missing"
    );
    assert_eq!(
        go(quote().with("executionPlan", plan.with("resources", Json::Array(vec![])))),
        "invalid quote execution resource count"
    );
    assert_eq!(
        go(quote().with("resourceId", text("prog-2"))),
        "quote coordinator resource mismatch"
    );
    let hold = quote().field("holdRequest").unwrap().copy();
    assert_eq!(
        go(quote().with("holdRequest", hold.copy().without("beneficiaries"))),
        "quote beneficiaries missing"
    );
    let cheap = Json::Array(vec![object(vec![
        ("userId", text("5@global")),
        ("maxAmount", Json::Whole(49)),
    ])]);
    assert_eq!(
        go(quote().with("holdRequest", hold.copy().with("beneficiaries", cheap))),
        "quote caps do not equal maxAmount"
    );
    let unknown = Json::Array(vec![object(vec![
        ("userId", text("8@global")),
        ("maxAmount", Json::Whole(50)),
    ])]);
    assert_eq!(
        go(quote().with("holdRequest", hold.with("beneficiaries", unknown))),
        "invalid quote beneficiary"
    );
}

#[test]
fn market_records_have_limits() {
    assert_eq!(federated_finance_market_bucket("tool"), Some("tools"));
    assert_eq!(federated_finance_market_bucket("frontend"), Some("frontends"));
    assert_eq!(federated_finance_market_bucket("ship"), None);
    assert_eq!(federated_finance_object(&object(vec![]), "row"), None);
    assert_eq!(federated_finance_object(&Json::Null, "row"), Some(s("row must be an object")));
    // `{"k":"` and `"}` make eight bytes.
    let fills = object(vec![("k", Json::Text("x".repeat(262_144 - 8)))]);
    assert_eq!(federated_finance_object(&fills, "row"), None);
    let spills = object(vec![("k", Json::Text("x".repeat(262_144 - 7)))]);
    assert_eq!(federated_finance_object(&spills, "row"), Some(s("row is too large")));
    assert_eq!(check_record(&object(vec![]), usize::MAX, "row"), Some(s("row is too large")));
    assert!(federated_finance_safe_numbers(&Json::Whole(9_007_199_254_740_991)));
    assert!(!federated_finance_safe_numbers(&Json::Whole(9_007_199_254_740_992)));
    assert!(!federated_finance_safe_numbers(&Json::Array(vec![Json::Real {
        near: 1,
        text: s("1.5"),
    }])));
}

#[test]
fn finance_records_have_their_keys() {
    assert_eq!(finance_hold_key("h"), "Json::FinanceHold::h");
    assert_eq!(finance_pool_key("p"), "Json::FinancePool::p");
    assert_eq!(finance_pool_reservation_key("r"), "Json::FinancePoolReservation::r");
    assert_eq!(finance_live_debit_key("r"), "Json::FinanceLiveDebit::r");
    assert_eq!(finance_project_budget_key("p"), "Json::FinanceProjectBudget::p");
    assert_eq!(finance_payout_key("p"), "Json::FinancePayout::p");
}
