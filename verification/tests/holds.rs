use aseman_node::finance::accounts::{get_financial_account, GetFinancialAccountInput};
use aseman_node::finance::holds::{
    create_hold, get_hold, release_hold, settle_hold, start_hold, write_signed_request,
    CreateHoldInput, GetHoldInput, HoldFacts, ReleaseHoldInput, SettleHoldInput, StartHoldInput,
};
use aseman_node::finance::ids::{
    base_url, finance_beneficiary_plan_hash, finance_hash, hash_encoded, valid_finance_hash, valid_finance_id,
    valid_finance_origin, HoldBeneficiaryInput,
};
use aseman_node::finance::ledger::{Ledger, SettlementLine, Wallet};
use aseman_node::finance::facts::gather_hold_facts;
use aseman_node::json::Json;
use aseman_node::outside::UrlParts;
use aseman_node::program::catalog::Programs;
use aseman_node::program::deploy::ProgramRecord;
use aseman_node::store::membership::{join, StoreRecord, Stores};
use aseman_node::store::permissions::StorePermissions;
use aseman_node::table::Table;

const NOW: i64 = 1_800_000_000_000;

fn s(value: &str) -> String {
    value.to_string()
}

fn text(value: &str) -> Json {
    Json::Text(s(value))
}

fn wallet(balance: i64) -> Wallet {
    Wallet {
        balance: Some(balance),
        held: 0,
        debt: 0,
        withdrawable: 0,
        payout_held: 0,
        earned: 0,
        spent: 0,
    }
}

fn signed() -> Json {
    let row = |user: &str, max_amount: i64| {
        Json::Object(vec![
            (s("userId"), text(user)),
            (s("role"), text(user)),
            (s("maxAmount"), Json::Whole(max_amount)),
        ])
    };
    Json::Object(vec![
        (s("quoteId"), text("q1")),
        (s("pricingVersion"), text("v1")),
        (s("maxAmount"), Json::Whole(700)),
        (s("meterProgramId"), text("meter")),
        (s("settlementAuthority"), text("meter-owner")),
        (s("expiresAt"), Json::Whole(NOW + 60_000)),
        (s("contextHash"), Json::Text("a".repeat(64))),
        (
            s("beneficiaryPlanHash"),
            Json::Text(finance_beneficiary_plan_hash(&beneficiaries())),
        ),
        (s("idempotencyKey"), text("key-1")),
        (s("beneficiaries"), Json::Array(vec![row("creator", 500), row("host", 200)])),
    ])
}

fn quote_for(request: Json) -> Json {
    Json::Object(vec![
        (s("payerUserId"), text("payer")),
        (s("expiresAt"), Json::Whole(NOW + 60_000)),
        (s("holdRequest"), request),
    ])
}

/// A ledger whose quote asks for exactly this request.
fn ledger_for(input: &CreateHoldInput) -> Ledger {
    let mut l = ledger();
    l.quotes.put("q1", quote_for(write_signed_request(input)));
    l
}

fn ledger() -> Ledger {
    let mut l = Ledger::new();
    l.wallets.put("payer", Wallet { withdrawable: 400, ..wallet(1000) });
    l.wallets.put("meter-owner", wallet(0));
    l.wallets.put("creator", wallet(0));
    l.wallets.put("host", wallet(0));
    l.quotes.put("q1", quote_for(signed()));
    l
}

fn beneficiaries() -> Vec<HoldBeneficiaryInput> {
    vec![
        HoldBeneficiaryInput { user_id: s("creator"), role: s("creator"), max_amount: 500 },
        HoldBeneficiaryInput { user_id: s("host"), role: s("host"), max_amount: 200 },
    ]
}

fn request() -> CreateHoldInput {
    let list = beneficiaries();
    let hash = finance_beneficiary_plan_hash(&list);
    CreateHoldInput {
        quote_id: s("q1"),
        pricing_version: s("v1"),
        max_amount: 700,
        meter_program_id: s("meter"),
        settlement_authority: s("meter-owner"),
        expires_at: NOW + 60_000,
        context_hash: "a".repeat(64),
        beneficiary_plan_hash: hash,
        beneficiaries: list,
        idempotency_key: s("key-1"),
    }
}

fn facts() -> HoldFacts {
    HoldFacts {
        payer_in_project: false,
        project: None,
        meter_exists: true,
    }
}

fn opened() -> Ledger {
    let mut l = ledger();
    let reply = create_hold(&mut l, "payer", &request(), &facts(), NOW, "h1", "j1");
    assert!(reply.is_ok());
    l
}

fn start_input() -> StartHoldInput {
    StartHoldInput {
        hold_id: s("h1"),
        payer_user_id: s("payer"),
        quote_id: s("q1"),
        run_id: s("run-1"),
    }
}

fn running() -> Ledger {
    let mut l = opened();
    assert!(start_hold(&mut l, "meter-owner", &start_input(), NOW, "j2").is_ok());
    l
}

fn line(user: &str, amount: i64) -> SettlementLine {
    SettlementLine { user_id: s(user), role: s(user), amount, source_ref: s("run-1") }
}

fn settlement(lines: Vec<SettlementLine>) -> SettleHoldInput {
    SettleHoldInput {
        hold_id: s("h1"),
        payer_user_id: s("payer"),
        quote_id: s("q1"),
        settlement_id: s("run-1"),
        usage_hash: "b".repeat(64),
        lines,
    }
}

fn release_input() -> ReleaseHoldInput {
    ReleaseHoldInput {
        hold_id: s("h1"),
        payer_user_id: s("payer"),
        release_id: s("rel-1"),
        reason: s("cancelled"),
    }
}

fn owned(l: &Ledger) -> i64 {
    let mut sum: i64 = 0;
    for i in 0..l.wallets.len() {
        let w = l.wallets.record_at(i);
        sum += w.balance.unwrap_or(0) + w.held + w.payout_held - w.debt;
    }
    sum
}

fn refused<T>(r: Result<T, String>) -> String {
    match r {
        Ok(_) => panic!("expected a refusal"),
        Err(e) => e,
    }
}

#[test]
fn accepts_caspar_endpoint_origins_and_legacy_ids() {
    for origin in [
        "global",
        "http://localhost:8074",
        "https://node.example:8076",
        "ws://127.0.0.1:8074/",
        "wss://node.example",
    ] {
        assert!(valid_finance_origin(origin), "expected valid origin: {origin}");
    }
}

#[test]
fn rejects_unsafe_or_non_base_origins() {
    for origin in [
        "",
        "ftp://node.example",
        "http://",
        "http://user@node.example",
        "http://node.example/path",
        "http://node.example?query=1",
        "http://node.example#fragment",
    ] {
        assert!(!valid_finance_origin(origin), "expected invalid origin: {origin}");
    }
}

#[test]
fn identifiers_and_hashes_have_their_forms() {
    assert!(valid_finance_id("12@global"));
    assert!(!valid_finance_id(""));
    assert!(valid_finance_hash(&"0f".repeat(32)));
    assert!(!valid_finance_hash(&"0f".repeat(31)));
    assert!(!valid_finance_hash(&"zz".repeat(32)));
    assert_eq!(
        hash_encoded(b"abc"),
        "ba7816bf8f01cfea414140de5dae2223b00361a396177a9cb410ff61f20015ad"
    );
    // Documents are hashed as `{"a":1,"b":"x"}` and `[null,true,1.5,{"k":"\""}]`.
    let fields = Json::Object(vec![(s("b"), text("x")), (s("a"), Json::Whole(1))]);
    assert_eq!(
        finance_hash(&fields),
        "ecf9e98ec0641e23113ff3ce8bdc78d0ddd249886517fd4a7f68cc83d4e65667"
    );
    let items = Json::Array(vec![
        Json::Null,
        Json::Bool(true),
        Json::Real { near: 1, text: s("1.5") },
        Json::Object(vec![(s("k"), text("\""))]),
    ]);
    assert_eq!(
        finance_hash(&items),
        "e623cb668423a62d016ca5ccb7e42f4a07a5188cc4256a1784b11c0793e5f9ed"
    );
}

#[test]
fn a_hold_sets_funds_aside_and_withdrawable_funds_last() {
    let l = opened();
    let w = l.wallets.get("payer").unwrap();
    assert_eq!(w.balance, Some(300));
    assert_eq!(w.held, 700);
    // 600 of the 1000 are top-ups and go first; 100 of the 400 withdrawable follow.
    assert_eq!(w.withdrawable, 300);
    let hold = l.holds.get("h1").unwrap();
    assert_eq!(hold.status, "open");
    assert_eq!(hold.withdrawable_amount, 100);
    assert_eq!(hold.remaining_amount, 700);
    assert_eq!(owned(&l), 1000);
    let entry = l.journal.get("j1").unwrap();
    assert_eq!(entry.kind, "hold.created");
    assert_eq!(entry.payload.text("pricingVersion"), Some("v1"));
    assert_eq!(entry.payload.text("projectId"), Some(""));
    let held = &entry.payload.items("entries").unwrap()[1];
    assert_eq!((held.text("account"), held.whole("amount")), (Some("wallet:payer:held"), Some(700)));
}

#[test]
fn a_repeated_request_opens_one_hold() {
    let mut l = opened();
    let again = create_hold(&mut l, "payer", &request(), &facts(), NOW, "h2", "j9").unwrap();
    assert!(!again.applied);
    assert!(l.holds.get("h2").is_none());
    assert_eq!(l.wallets.get("payer").unwrap().held, 700);
    let other = CreateHoldInput { quote_id: s("q2"), ..request() };
    l.quotes.put("q2", quote_for(write_signed_request(&other)));
    assert_eq!(
        refused(create_hold(&mut l, "payer", &other, &facts(), NOW, "h3", "j9")),
        "idempotency key already used with different request"
    );
}

#[test]
fn hold_requests_are_checked() {
    let cases: Vec<(&str, CreateHoldInput)> = vec![
        (
            "invalid quote, pricing, meter, authority, or idempotency identifier",
            CreateHoldInput { quote_id: s(""), ..request() },
        ),
        (
            "contextHash and beneficiaryPlanHash must be sha256 hex",
            CreateHoldInput { context_hash: s("x"), ..request() },
        ),
        ("maxAmount must be greater than zero", CreateHoldInput { max_amount: 0, ..request() }),
        (
            "expiresAt must be in the future and within 24 hours",
            CreateHoldInput { expires_at: NOW, ..request() },
        ),
        (
            "expiresAt must be in the future and within 24 hours",
            CreateHoldInput { expires_at: NOW + 86_400_001, ..request() },
        ),
        (
            "beneficiaries must contain between 1 and 64 entries",
            CreateHoldInput { beneficiaries: vec![], ..request() },
        ),
        ("billing quote not found", CreateHoldInput { quote_id: s("q2"), ..request() }),
        (
            "settlement authority not found",
            CreateHoldInput { settlement_authority: s("nobody"), ..request() },
        ),
        (
            "beneficiary plan hash mismatch",
            CreateHoldInput { beneficiary_plan_hash: "c".repeat(64), ..request() },
        ),
    ];
    for (expected, input) in cases {
        let mut l = ledger_for(&input);
        assert_eq!(
            refused(create_hold(&mut l, "payer", &input, &facts(), NOW, "h1", "j1")),
            expected
        );
        assert_eq!(l.wallets.get("payer").unwrap().balance, Some(1000));
    }
    let mut l = ledger();
    assert_eq!(
        refused(create_hold(&mut l, "creator", &request(), &facts(), NOW, "h1", "j1")),
        "billing quote payer mismatch"
    );
    let later = NOW + 60_001;
    let late = CreateHoldInput { expires_at: later + 1000, ..request() };
    assert_eq!(
        refused(create_hold(&mut l, "payer", &late, &facts(), later, "h1", "j1")),
        "billing quote expired"
    );
    let fewer = vec![beneficiaries().remove(0)];
    let terms = vec![
        CreateHoldInput { max_amount: 701, ..request() },
        CreateHoldInput { expires_at: NOW + 60_001, ..request() },
        CreateHoldInput { context_hash: "b".repeat(64), ..request() },
        CreateHoldInput { beneficiary_plan_hash: "b".repeat(64), ..request() },
        CreateHoldInput { pricing_version: s("v2"), ..request() },
        CreateHoldInput { idempotency_key: s("key-2"), ..request() },
        CreateHoldInput { meter_program_id: s("other"), ..request() },
        CreateHoldInput { settlement_authority: s("host"), ..request() },
        CreateHoldInput { beneficiaries: fewer, ..request() },
    ];
    for other in terms {
        assert_eq!(
            refused(create_hold(&mut l, "payer", &other, &facts(), NOW, "h1", "j1")),
            "hold request does not match server quote"
        );
    }
    let mut unmetered = facts();
    unmetered.meter_exists = false;
    assert_eq!(
        refused(create_hold(&mut l, "payer", &request(), &unmetered, NOW, "h1", "j1")),
        "meter program not found"
    );
}

#[test]
fn hold_plans_are_checked() {
    let plan = |list: Vec<HoldBeneficiaryInput>| CreateHoldInput {
        beneficiary_plan_hash: finance_beneficiary_plan_hash(&list),
        beneficiaries: list,
        ..request()
    };
    let one = |user: &str, role: &str, max_amount: i64| HoldBeneficiaryInput {
        user_id: s(user),
        role: s(role),
        max_amount,
    };
    let cases = vec![
        ("invalid beneficiary", plan(vec![one("", "creator", 700)])),
        ("payer cannot be a hold beneficiary", plan(vec![one("payer", "creator", 700)])),
        (
            "duplicate beneficiary role",
            plan(vec![one("creator", "creator", 350), one("creator", "creator", 350)]),
        ),
        ("beneficiary not found", plan(vec![one("nobody", "creator", 700)])),
        (
            "beneficiary cap overflow",
            plan(vec![one("creator", "creator", i64::MAX), one("host", "host", 1)]),
        ),
        ("beneficiary caps must equal maxAmount", plan(vec![one("creator", "creator", 1)])),
    ];
    for (expected, input) in cases {
        let mut l = ledger_for(&input);
        assert_eq!(
            refused(create_hold(&mut l, "payer", &input, &facts(), NOW, "h1", "j1")),
            expected
        );
    }
    let mut indebted = ledger();
    indebted.wallets.put("payer", Wallet { debt: 5, ..wallet(1000) });
    assert_eq!(
        refused(create_hold(&mut indebted, "payer", &request(), &facts(), NOW, "h1", "j1")),
        "wallet has outstanding payment debt"
    );
    let mut poor = ledger();
    poor.wallets.put("payer", wallet(699));
    assert!(create_hold(&mut poor, "payer", &request(), &facts(), NOW, "h1", "j1").is_err());
}

#[test]
fn a_hold_starts_once_under_its_authority() {
    let mut l = running();
    assert_eq!(l.holds.get("h1").unwrap().status, "running");
    let again = start_hold(&mut l, "meter-owner", &start_input(), NOW, "j9").unwrap();
    assert!(!again.applied);
    let mut fresh = opened();
    assert_eq!(
        refused(start_hold(&mut fresh, "host", &start_input(), NOW, "j2")),
        "caller is not the settlement authority"
    );
    assert_eq!(
        refused(start_hold(
            &mut fresh,
            "meter-owner",
            &StartHoldInput { payer_user_id: s("host"), ..start_input() },
            NOW,
            "j2"
        )),
        "payer does not match hold"
    );
    assert_eq!(
        refused(start_hold(
            &mut fresh,
            "meter-owner",
            &StartHoldInput { quote_id: s("q9"), ..start_input() },
            NOW,
            "j2"
        )),
        "quote does not match hold"
    );
    assert_eq!(
        refused(start_hold(
            &mut fresh,
            "meter-owner",
            &StartHoldInput { hold_id: s("h9"), ..start_input() },
            NOW,
            "j2"
        )),
        "hold not found"
    );
    assert_eq!(
        refused(start_hold(&mut fresh, "meter-owner", &start_input(), NOW + 120_000, "j2")),
        "hold expired"
    );
    assert_eq!(
        refused(start_hold(
            &mut fresh,
            "meter-owner",
            &StartHoldInput { run_id: s(""), ..start_input() },
            NOW,
            "j2"
        )),
        "invalid run authorization"
    );
}

#[test]
fn a_settlement_pays_its_lines_and_refunds_the_rest() {
    let mut l = running();
    let input = settlement(vec![line("creator", 300), line("host", 50)]);
    let reply = settle_hold(&mut l, "meter-owner", &input, NOW + 1, "j3").unwrap();
    assert!(reply.applied);
    assert_eq!(reply.hold.status, "settled");
    assert_eq!(reply.hold.actual_amount, 350);
    assert_eq!(reply.hold.refunded_amount, 350);
    assert_eq!(l.wallets.get("creator").unwrap().balance, Some(300));
    assert_eq!(l.wallets.get("creator").unwrap().withdrawable, 300);
    assert_eq!(l.wallets.get("host").unwrap().balance, Some(50));
    let payer = l.wallets.get("payer").unwrap();
    assert_eq!(payer.balance, Some(650));
    assert_eq!(payer.held, 0);
    assert_eq!(payer.spent, 350);
    assert_eq!(owned(&l), 1000);
    let payload = &l.journal.get("j3").unwrap().payload;
    assert_eq!(payload.text("quoteId"), Some("q1"));
    assert_eq!(payload.text("settlementId"), Some("run-1"));
    assert_eq!(payload.text("usageHash"), Some(input.usage_hash.as_str()));
    assert_eq!(payload.whole("actualAmount"), Some(350));
    assert_eq!(payload.whole("refundedAmount"), Some(350));
    let lines = payload.items("settlementLines").unwrap();
    assert_eq!((lines[0].text("userId"), lines[0].whole("amount")), (Some("creator"), Some(300)));
    let entries = payload.items("entries").unwrap();
    assert_eq!(entries[0].whole("amount"), Some(-700));
    assert_eq!(entries[1].field("grossAmount").is_none(), true);
    assert_eq!(entries[2].text("account"), Some("wallet:creator:available"));
    assert_eq!((entries[2].whole("amount"), entries[2].whole("grossAmount")), (Some(300), Some(300)));
    let begun = &l.journal.get("j2").unwrap().payload;
    assert_eq!(begun.text("runId"), Some("run-1"));
    assert!(begun.items("entries").unwrap().is_empty());

    let again = settle_hold(&mut l, "meter-owner", &input, NOW + 2, "j4").unwrap();
    assert!(!again.applied);
    assert_eq!(l.wallets.get("creator").unwrap().balance, Some(300));
}

#[test]
fn a_credit_that_repays_debt_tells_what_was_earned() {
    let mut l = running();
    l.wallets.put("creator", Wallet { debt: 100, ..wallet(0) });
    let input = settlement(vec![line("creator", 300)]);
    assert!(settle_hold(&mut l, "meter-owner", &input, NOW + 1, "j3").is_ok());
    let payload = &l.journal.get("j3").unwrap().payload;
    let entries = payload.items("entries").unwrap();
    assert_eq!(entries.len(), 4);
    assert_eq!((entries[2].whole("amount"), entries[2].whole("grossAmount")), (Some(200), Some(300)));
    assert_eq!(entries[3].text("account"), Some("wallet:creator:debt"));
    assert_eq!(entries[3].whole("amount"), Some(-100));
    assert!(entries[3].field("grossAmount").is_none());
}

#[test]
fn settlements_are_checked() {
    let mut l = running();
    let good = || vec![line("creator", 300)];
    assert_eq!(
        refused(settle_hold(
            &mut l,
            "meter-owner",
            &SettleHoldInput { usage_hash: s("x"), ..settlement(good()) },
            NOW,
            "j3"
        )),
        "invalid settlement identifiers or usageHash"
    );
    assert_eq!(
        refused(settle_hold(&mut l, "host", &settlement(good()), NOW, "j3")),
        "caller is not the settlement authority"
    );
    assert_eq!(
        refused(settle_hold(
            &mut l,
            "meter-owner",
            &SettleHoldInput { settlement_id: s("run-2"), ..settlement(good()) },
            NOW,
            "j3"
        )),
        "settlement does not match authorized run"
    );
    assert_eq!(
        refused(settle_hold(
            &mut l,
            "meter-owner",
            &SettleHoldInput { hold_id: s("h9"), ..settlement(good()) },
            NOW,
            "j3"
        )),
        "hold not found"
    );
    let over = settlement(vec![line("creator", 501)]);
    assert!(settle_hold(&mut l, "meter-owner", &over, NOW, "j3").is_err());
    let stranger = settlement(vec![line("payer", 1)]);
    assert!(settle_hold(&mut l, "meter-owner", &stranger, NOW, "j3").is_err());
    let mut unstarted = opened();
    assert_eq!(
        refused(settle_hold(&mut unstarted, "meter-owner", &settlement(good()), NOW, "j3")),
        "hold is not running"
    );
    assert_eq!(owned(&l), 1000);
}

#[test]
fn releasing_a_hold_undoes_it() {
    let mut l = opened();
    let reply = release_hold(&mut l, "meter-owner", &release_input(), NOW, "j3").unwrap();
    assert!(reply.applied);
    let w = l.wallets.get("payer").unwrap();
    assert_eq!((w.balance, w.held, w.withdrawable), (Some(1000), 0, 400));
    let payload = &l.journal.get("j3").unwrap().payload;
    assert_eq!(payload.text("status"), Some("released"));
    assert_eq!(payload.text("reason"), Some(release_input().reason.as_str()));
    let again = release_hold(&mut l, "meter-owner", &release_input(), NOW, "j4").unwrap();
    assert!(!again.applied);
    assert_eq!(owned(&l), 1000);
}

#[test]
fn releasing_a_started_hold_undoes_it_too() {
    let mut l = running();
    assert!(release_hold(&mut l, "meter-owner", &release_input(), NOW, "j3").is_ok());
    let w = l.wallets.get("payer").unwrap();
    assert_eq!((w.balance, w.held, w.withdrawable), (Some(1000), 0, 400));
}

#[test]
fn releases_are_checked() {
    let mut l = running();
    assert_eq!(
        refused(release_hold(&mut l, "payer", &release_input(), NOW, "j3")),
        "only the authority may release an active hold"
    );
    assert_eq!(
        refused(release_hold(
            &mut l,
            "meter-owner",
            &ReleaseHoldInput { payer_user_id: s("host"), ..release_input() },
            NOW,
            "j3"
        )),
        "payer does not match hold"
    );
    assert_eq!(
        refused(release_hold(
            &mut l,
            "meter-owner",
            &ReleaseHoldInput { release_id: s(""), ..release_input() },
            NOW,
            "j3"
        )),
        "invalid release request"
    );
    // Once the hold has expired its payer may take the funds back.
    assert!(release_hold(&mut l, "payer", &release_input(), NOW + 120_000, "j3").is_ok());
    assert_eq!(
        refused(release_hold(
            &mut l,
            "meter-owner",
            &ReleaseHoldInput { release_id: s("rel-2"), ..release_input() },
            NOW,
            "j5"
        )),
        "hold is not active"
    );
}

#[test]
fn holds_are_shown_to_those_concerned() {
    let l = opened();
    let input = GetHoldInput { hold_id: s("h1"), payer_user_id: s("payer") };
    assert!(get_hold(&l, "payer", &input).is_ok());
    assert!(get_hold(&l, "meter-owner", &input).is_ok());
    assert_eq!(refused(get_hold(&l, "stranger", &input)), "access denied");
    assert_eq!(
        refused(get_hold(
            &l,
            "payer",
            &GetHoldInput { hold_id: s("h9"), payer_user_id: s("payer") }
        )),
        "hold not found"
    );
}

#[test]
fn accounts_show_what_is_held() {
    let l = running();
    let account = get_financial_account(
        &l,
        "payer",
        &GetFinancialAccountInput { user_id: s("payer"), limit: 10 },
    );
    match account {
        Ok(a) => {
            assert_eq!((a.available, a.held, a.withdrawable), (300, 700, 300));
            assert_eq!(a.active_holds.len(), 1);
            assert_eq!(a.transactions.len(), 2);
        }
        Err(e) => panic!("{e}"),
    }
    let other = get_financial_account(
        &l,
        "host",
        &GetFinancialAccountInput { user_id: s("payer"), limit: 10 },
    );
    assert!(other.is_err());
}

#[test]
fn the_facts_of_a_hold_are_gathered_from_the_records() {
    let mut l = ledger();
    let mut stores =
        Stores { records: Table::new(), metadata: Table::new(), links: Table::new() };
    let mut programs = Programs::new();
    let none = gather_hold_facts(&stores, &programs, &l, "payer", &request());
    assert!(!none.payer_in_project && none.project.is_none() && !none.meter_exists);
    l.quotes.put("q1", quote_for(signed()).with("projectId", text("s1")));
    stores.records.put("s1", StoreRecord::empty("s1"));
    join(&mut stores.links, "s1", "payer", StorePermissions::member());
    programs.create_program(ProgramRecord {
        id: s("meter"),
        machine_id: s("m"),
        runtime: s("wasm"),
        path: s(""),
        comment: s(""),
    });
    let facts = gather_hold_facts(&stores, &programs, &l, "payer", &request());
    assert!(facts.payer_in_project && facts.meter_exists);
    assert_eq!(facts.project.unwrap().fields().unwrap().len(), 0);
    stores.merge_metadata_value("s1", &Json::Object(vec![(s("budgetMinor"), Json::Whole(9))]));
    let facts = gather_hold_facts(&stores, &programs, &l, "payer", &request());
    assert_eq!(facts.project.as_ref().unwrap().whole("budgetMinor"), Some(9));
    assert_eq!(
        refused(create_hold(&mut l, "payer", &request(), &facts, NOW, "h1", "j1")),
        "project budget exceeded"
    );
}

#[test]
fn base_urls_have_a_host_and_nothing_beyond_a_slash() {
    let parts = || UrlParts {
        scheme: s("https"),
        host: Some(s("node.example")),
        username: s(""),
        password: None,
        path: s("/"),
        query: None,
        fragment: None,
    };
    assert!(base_url(&parts()));
    assert!(base_url(&UrlParts { scheme: s("ws"), path: s(""), ..parts() }));
    for odd in [
        UrlParts { scheme: s("ftp"), ..parts() },
        UrlParts { host: None, ..parts() },
        UrlParts { username: s("u"), ..parts() },
        UrlParts { password: Some(s("p")), ..parts() },
        UrlParts { path: s("/x"), ..parts() },
        UrlParts { query: Some(s("q")), ..parts() },
        UrlParts { fragment: Some(s("f")), ..parts() },
    ] {
        assert!(!base_url(&odd));
    }
}
