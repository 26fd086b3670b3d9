use aseman_node::creature::directory::{CreatureFault, CreatureRecord, Creatures};
use aseman_node::creature::locks::{
    consume_lock, consume_signing_text, lock_key_of, lock_signing_text, lock_token, select_lock_step, ConsumeLockInput,
    LockStepInput, LockTokenInput,
};
use aseman_node::creature::transfers::{mint, transfer, MintInput, MintReply, TransferInput};
use aseman_node::finance::budget::{
    finalize_project_budget, finance_nonnegative_field, reserve_project_budget,
};
use aseman_node::finance::ledger::{finance_counter, Ledger, Wallet};
use aseman_node::finance::moves::{
    clamped_add, clamped_sub, give_funds_back, set_funds_aside, withdrawable_debit_portion,
};
use aseman_node::finance::balances::{load_balance, store_balance};
use aseman_node::finance::payouts::{
    list_payouts, payment_adjustment, request_payout, resolve_payout, ListPayoutsInput,
    PaymentAdjustmentInput, RequestPayoutInput, ResolvePayoutInput,
};
use aseman_node::finance::reconcile::{
    reconcile_financial_system, record_id, Scan, WithdrawableRow,
};
use aseman_node::finance::scan::scan_ledger;
use aseman_node::json::Json;
use aseman_node::table::Table;

const NOW: i64 = 1_800_000_000_000;

fn s(value: &str) -> String {
    value.to_string()
}

fn wallet(balance: i64) -> Wallet {
    Wallet {
        balance: Some(balance),
        held: 0,
        debt: 0,
        withdrawable: 0,
        payout_held: 0,
        earned: 0,
        spent: 0,
    }
}

fn refused<T>(r: Result<T, String>) -> String {
    match r {
        Ok(_) => panic!("expected a refusal"),
        Err(e) => e,
    }
}

// ---------------------------------------------------------------- transfers

fn names() -> Table<String> {
    let mut t = Table::new();
    t.put("bob@global", s("2@global"));
    t.put("alice@global", s("1@global"));
    t
}

fn send(amount: i64, to: &str) -> TransferInput {
    TransferInput { to_username: s(to), amount }
}

#[test]
fn a_transfer_conserves_money_and_repays_debt_first() {
    let mut l = Ledger::new();
    l.wallets.put("1@global", Wallet { withdrawable: 80, ..wallet(100) });
    l.wallets.put("2@global", Wallet { debt: 30, ..wallet(5) });
    match transfer(&mut l, &names(), "1@global", &send(50, "bob@global"), NOW, "j1") {
        Ok(reply) => {
            assert_eq!((reply.amount, reply.debt_repaid), (50, 30));
            assert_eq!(reply.to_user_id, "2@global");
        }
        Err(e) => panic!("{e}"),
    }
    let from = l.wallets.get("1@global").unwrap();
    // The 20 that are no earnings go first; 30 of the 80 earnings follow.
    assert_eq!((from.balance, from.withdrawable), (Some(50), 50));
    let to = l.wallets.get("2@global").unwrap();
    assert_eq!((to.balance, to.debt, to.withdrawable), (Some(25), 0, 20));
    let payload = &l.journal.get("j1").unwrap().payload;
    let entries = payload.items("entries").unwrap();
    let posted: Vec<(Option<&str>, Option<i64>)> =
        entries.iter().map(|e| (e.text("account"), e.whole("amount"))).collect();
    assert_eq!(
        posted,
        [
            (Some("wallet:1@global:available"), Some(-50)),
            (Some("wallet:2@global:available"), Some(20)),
            (Some("wallet:2@global:debt"), Some(-30)),
        ]
    );
    assert_eq!(payload.whole("withdrawableAmount"), Some(30));
    assert_eq!(payload.whole("debtRepaid"), Some(30));
}

#[test]
fn wallets_show_the_balance_of_their_creature() {
    let mut creatures = Creatures::new();
    let record = CreatureRecord {
        id: s("2@global"),
        creature_type: s("human"),
        username: s("bob@global"),
        public_key: s(""),
        chain_id: s(""),
        subchain_id: s(""),
        owner_id: s(""),
    };
    assert_eq!(creatures.create(&record), Ok(()));
    assert_eq!(creatures.open_balance("2@global", 70), Ok(()));
    let mut l = Ledger::new();
    l.wallets.put("2@global", Wallet { debt: 5, ..wallet(0) });
    load_balance(&mut l, &creatures, "2@global");
    let w = l.wallets.get("2@global").unwrap();
    assert_eq!((w.balance, w.debt), (Some(70), 5));
    l.wallets.put("2@global", wallet(41));
    assert_eq!(store_balance(&l, &mut creatures, "2@global"), Ok(()));
    assert_eq!(creatures.account_or_empty("2@global").balance, 41);
    load_balance(&mut l, &creatures, "9@global");
    assert_eq!(l.wallets.get("9@global").unwrap().balance, None);
    assert_eq!(
        store_balance(&l, &mut creatures, "9@global"),
        Err(CreatureFault::NotFound)
    );
}

#[test]
fn transfers_are_checked() {
    let mut l = Ledger::new();
    l.wallets.put("1@global", wallet(100));
    l.wallets.put("2@global", wallet(0));
    let mut go = |from: &str, input: TransferInput| {
        refused(transfer(&mut l, &names(), from, &input, NOW, "j1"))
    };
    assert_eq!(go("1@global", send(0, "bob@global")), "amount must be greater than zero");
    assert_eq!(go("9@global", send(1, "bob@global")), "sender creature not found");
    assert_eq!(go("1@global", send(101, "bob@global")), "your balance is not enough");
    assert_eq!(go("1@global", send(1, "nobody@global")), "target creature not found");
    assert_eq!(go("1@global", send(1, "alice@global")), "cannot transfer to the same wallet");
}

#[test]
fn a_payment_is_credited_once() {
    let mut l = Ledger::new();
    l.wallets.put("2@global", Wallet { debt: 10, ..wallet(0) });
    let mut addresses = Table::new();
    addresses.put("UserEmailToId::b@mail", s("2@global"));
    let input =
        MintInput { to_user_email: s("b@mail"), amount: 100, idempotency_key: s(" pay-1 ") };
    match mint(&mut l, &addresses, "1@global", &input, NOW, "j1") {
        Ok(MintReply::Applied { balance, wallet_credit, debt_repaid, debt, .. }) => {
            assert_eq!((balance, wallet_credit, debt_repaid, debt), (90, 90, 10, 0));
        }
        Ok(_) => panic!("the payment is new"),
        Err(e) => panic!("{e}"),
    }
    match mint(&mut l, &addresses, "1@global", &input, NOW, "j2") {
        Ok(MintReply::AlreadyApplied { previous }) => assert_eq!(previous, "2@global:100:j1"),
        _ => panic!("the payment was credited before"),
    }
    assert_eq!(l.wallets.get("2@global").unwrap().balance, Some(90));
    let payload = &l.journal.get("j1").unwrap().payload;
    assert_eq!(payload.text("paymentReference"), Some(" pay-1 "));
    assert_eq!(payload.whole("grossAmount"), Some(100));
    assert_eq!(refused(mint(&mut l, &addresses, "2@global", &input, NOW, "j3")), "access denied");
    let nobody = MintInput { to_user_email: s("x"), amount: 1, idempotency_key: s("") };
    assert_eq!(refused(mint(&mut l, &addresses, "1@global", &nobody, NOW, "j3")), "target user not found");
    let nothing = MintInput { to_user_email: s("b@mail"), amount: 0, idempotency_key: s("") };
    assert_eq!(
        refused(mint(&mut l, &addresses, "1@global", &nothing, NOW, "j3")),
        "amount must be greater than zero"
    );
}

// ---------------------------------------------------------------- locks

fn vault() -> Ledger {
    let mut l = Ledger::new();
    l.wallets.put("1@global", wallet(100));
    l.wallets.put("2@global", wallet(0));
    l
}

fn lock_input() -> LockTokenInput {
    LockTokenInput {
        typ: s("pay"),
        target: s("2@global"),
        amount: 0,
        unlock_at: 0,
        steps: vec![
            LockStepInput { amount: 30, unlock_at: 1000 },
            LockStepInput { amount: 20, unlock_at: 2000 },
        ],
    }
}

fn consume(step: Option<i64>, amount: i64) -> ConsumeLockInput {
    ConsumeLockInput {
        typ: s("pay"),
        user_id: s("1@global"),
        lock_id: s("l1"),
        amount,
        step,
    }
}

#[test]
fn a_lock_holds_what_left_the_balance_and_pays_each_step_once() {
    let mut v = vault();
    assert_eq!(lock_token(&mut v, "1@global", &lock_input(), "l1"), Ok(()));
    assert_eq!(v.wallets.get("1@global").unwrap().balance, Some(50));
    let record = v.locks.get(&lock_key_of("1@global", "l1")).unwrap();
    assert_eq!(record.whole("remainingAmount"), Some(50));

    assert_eq!(
        consume_signing_text(&v, "2@global", &consume(None, 30), 1500),
        Some(s("l1:0:1000:30:2@global"))
    );
    assert_eq!(consume_signing_text(&v, "2@global", &consume(None, 31), 1500), None);
    let unknown = ConsumeLockInput { typ: s("gift"), ..consume(None, 30) };
    assert_eq!(consume_signing_text(&v, "2@global", &unknown, 1500), None);
    match consume_lock(&mut v, "2@global", &consume(None, 30), 1500, true) {
        Ok(done) => assert_eq!((done.step, done.remaining), (0, 20)),
        Err(e) => panic!("{e}"),
    }
    assert_eq!(v.wallets.get("2@global").unwrap().balance, Some(30));
    assert_eq!(
        refused(consume_lock(&mut v, "2@global", &consume(Some(0), 30), 1500, true)),
        "lock step already consumed"
    );
    assert_eq!(
        refused(consume_lock(&mut v, "2@global", &consume(Some(1), 20), 1500, true)),
        "lock step is not consumable yet"
    );
    match consume_lock(&mut v, "2@global", &consume(Some(1), 20), 2000, true) {
        Ok(done) => assert_eq!((done.step, done.remaining), (1, 0)),
        Err(e) => panic!("{e}"),
    }
    assert_eq!(v.wallets.get("2@global").unwrap().balance, Some(50));
}

#[test]
fn locks_are_checked() {
    let mut v = vault();
    let one = |amount: i64, unlock_at: i64| LockTokenInput {
        steps: vec![],
        amount,
        unlock_at,
        ..lock_input()
    };
    let mut go = |input: LockTokenInput| refused(lock_token(&mut v, "1@global", &input, "l1"));
    assert_eq!(go(one(0, 1)), "amount must be greater than zero");
    assert_eq!(go(one(1, 0)), "unlockAt must be a unix timestamp in milliseconds");
    assert_eq!(go(one(101, 1)), "your balance is not enough");
    assert_eq!(go(LockTokenInput { typ: s("x"), ..one(1, 1) }), "unknown lock type");
    assert_eq!(go(LockTokenInput { target: s("9"), ..one(1, 1) }), "target user not acceptable");
    let bad = |amount: i64, unlock_at: i64| LockTokenInput {
        steps: vec![
            LockStepInput { amount: 1, unlock_at: 1 },
            LockStepInput { amount, unlock_at },
        ],
        ..lock_input()
    };
    assert_eq!(go(bad(0, 1)), "step 1 amount must be greater than zero");
    assert_eq!(go(bad(1, 0)), "step 1 unlockAt must be a unix timestamp in milliseconds");
    assert_eq!(go(bad(i64::MAX, 1)), "lock amount overflow");
    assert_eq!(v.wallets.get("1@global").unwrap().balance, Some(100));
}

#[test]
fn lock_steps_are_chosen() {
    let mut v = vault();
    lock_token(&mut v, "1@global", &lock_input(), "l1").unwrap();
    let record = v.locks.get(&lock_key_of("1@global", "l1")).unwrap();
    let choose = |step: Option<i64>, amount: i64, now: i64| {
        select_lock_step(Some(record), step, amount, now)
    };
    assert_eq!(choose(None, 20, 5000), Ok(1));
    assert_eq!(choose(Some(0), 30, 5000), Ok(0));
    assert_eq!(choose(Some(7), 30, 5000), Err(s("lock step not found")));
    assert_eq!(choose(None, 99, 5000), Err(s("lock step not found")));
    assert_eq!(choose(Some(0), 99, 5000), Err(s("amount of payment not matched")));
    assert_eq!(select_lock_step(None, None, 1, 1), Err(s("lock not found")));
    let empty = Json::Object(vec![]);
    assert_eq!(
        select_lock_step(Some(&empty), None, 1, 1),
        Err(s("lock does not include steps"))
    );
    assert_eq!(lock_signing_text("l1", 1, 2000, 20, "2@global"), "l1:1:2000:20:2@global");
    assert!(consume_lock(&mut v, "2@global", &consume(Some(0), 30), 5000, false).is_err());
}

// ---------------------------------------------------------------- payouts

fn earner() -> Ledger {
    let mut l = Ledger::new();
    l.wallets.put("2@global", Wallet { withdrawable: 60, ..wallet(100) });
    l.wallets.put("1@global", wallet(0));
    l
}

fn ask(amount: i64) -> RequestPayoutInput {
    RequestPayoutInput { request_id: s("r1"), amount, destination_ref: s(" iban ") }
}

fn resolve(status: &str) -> ResolvePayoutInput {
    ResolvePayoutInput {
        payout_id: s("p1"),
        resolution_id: s("x1"),
        status: s(status),
        provider_reference: s("ref"),
        reason: s(""),
    }
}

#[test]
fn only_earnings_are_paid_out() {
    let mut l = earner();
    let refusal = request_payout(&mut l, "2@global", &ask(61), NOW, "p1", "j1");
    assert_eq!(refused(refusal), "withdrawable earnings are not enough");
    match request_payout(&mut l, "2@global", &ask(60), NOW, "p1", "j1") {
        Ok(reply) => {
            assert!(reply.applied);
            assert_eq!(reply.payout.destination_ref, "iban");
            assert_eq!(reply.payout.status, "pending");
        }
        Err(e) => panic!("{e}"),
    }
    let w = l.wallets.get("2@global").unwrap();
    assert_eq!((w.balance, w.withdrawable, w.payout_held), (Some(40), 0, 60));
    let payload = &l.journal.get("j1").unwrap().payload;
    assert_eq!(payload.text("payoutId"), Some("p1"));
    assert_eq!(payload.text("destinationRef"), Some("iban"));
    match request_payout(&mut l, "2@global", &ask(60), NOW, "p2", "j2") {
        Ok(again) => assert!(!again.applied),
        Err(e) => panic!("{e}"),
    }
    let elsewhere = RequestPayoutInput { destination_ref: s("other"), ..ask(60) };
    for other in [ask(59), elsewhere] {
        let changed = request_payout(&mut l, "2@global", &other, NOW, "p2", "j2");
        assert_eq!(refused(changed), "requestId already used with different payout data");
    }
    let invalid = request_payout(&mut l, "2@global", &ask(0), NOW, "p3", "j3");
    assert_eq!(refused(invalid), "invalid payout request");
}

#[test]
fn payouts_are_paid_or_given_back() {
    let mut l = earner();
    assert!(request_payout(&mut l, "2@global", &ask(60), NOW, "p1", "j1").is_ok());
    let stranger = resolve_payout(&mut l, "2@global", &resolve("paid"), NOW, "j2");
    assert_eq!(refused(stranger), "access denied");
    let unknown = resolve_payout(&mut l, "1@global", &resolve("lost"), NOW, "j2");
    assert_eq!(refused(unknown), "invalid payout resolution");
    assert!(resolve_payout(&mut l, "1@global", &resolve("rejected"), NOW, "j2").is_ok());
    let w = l.wallets.get("2@global").unwrap();
    assert_eq!((w.balance, w.withdrawable, w.payout_held), (Some(100), 60, 0));
    let payload = &l.journal.get("j2").unwrap().payload;
    assert_eq!(payload.text("providerReference"), Some("ref"));
    assert_eq!(
        payload.items("entries").unwrap()[1].text("account"),
        Some("wallet:2@global:available")
    );
    match resolve_payout(&mut l, "1@global", &resolve("rejected"), NOW, "j3") {
        Ok(again) => assert!(!again.applied),
        Err(e) => panic!("{e}"),
    }
    let other = ResolvePayoutInput { reason: s("late"), ..resolve("rejected") };
    assert_eq!(
        refused(resolve_payout(&mut l, "1@global", &other, NOW, "j3")),
        "resolutionId already used with different payout data"
    );
    let late = ResolvePayoutInput { resolution_id: s("x2"), ..resolve("paid") };
    let again = resolve_payout(&mut l, "1@global", &late, NOW, "j3");
    assert_eq!(refused(again), "payout is not pending");
    let input = ListPayoutsInput { user_id: s("2@global"), limit: 5 };
    match list_payouts(&l, "2@global", &input) {
        Ok(list) => assert_eq!(list[0].status, "rejected"),
        Err(e) => panic!("{e}"),
    }
}

#[test]
fn reversals_become_debt_when_the_balance_is_not_enough() {
    let mut l = earner();
    let input = PaymentAdjustmentInput {
        user_id: s("2@global"),
        kind: s("chargeback"),
        idempotency_key: s("k1"),
        reference: s("case"),
        amount: -130,
        metadata: Json::Object(vec![(s("note"), Json::Text(s("lost")))]),
    };
    match payment_adjustment(&mut l, "1@global", &input, NOW, "j1") {
        Ok(reply) => {
            assert!(reply.applied);
            assert_eq!((reply.account.available, reply.account.debt), (0, 30));
            assert_eq!(reply.account.withdrawable, 0);
        }
        Err(e) => panic!("{e}"),
    }
    match payment_adjustment(&mut l, "1@global", &input, NOW, "j2") {
        Ok(reply) => assert!(!reply.applied),
        Err(e) => panic!("{e}"),
    }
    let entry = l.journal.get("j1").unwrap();
    assert_eq!(entry.kind, "payment.chargeback");
    assert_eq!(entry.payload.whole("adjustmentAmount"), Some(-130));
    assert_eq!(entry.payload.text("reference"), Some("case"));
    assert_eq!(entry.payload.field("metadata").unwrap().text("note"), Some("lost"));
    assert_eq!(
        entry.payload.items("entries").unwrap()[2].text("account"),
        Some("external:payments")
    );
    let mut go = |input: PaymentAdjustmentInput, caller: &str| {
        refused(payment_adjustment(&mut l, caller, &input, NOW, "j3"))
    };
    let base = || PaymentAdjustmentInput {
        user_id: s("2@global"),
        kind: s("refund"),
        idempotency_key: s("k2"),
        reference: s("case"),
        amount: -1,
        metadata: Json::Null,
    };
    assert_eq!(go(base(), "2@global"), "access denied");
    assert_eq!(
        go(PaymentAdjustmentInput { amount: 0, ..base() }, "1@global"),
        "invalid payment adjustment"
    );
    assert_eq!(
        go(PaymentAdjustmentInput { amount: 1, ..base() }, "1@global"),
        "unsupported payment adjustment kind"
    );
    // Two quotes make the text of a document two bytes longer.
    let wordy = PaymentAdjustmentInput { metadata: Json::Text("x".repeat(4095)), ..base() };
    assert_eq!(go(wordy, "1@global"), "payment adjustment metadata is too large");
    assert_eq!(
        go(PaymentAdjustmentInput { idempotency_key: s("k1"), ..base() }, "1@global"),
        "idempotency key already used with different adjustment"
    );
}

// ---------------------------------------------------------------- figures

#[test]
fn funds_move_between_figures() {
    assert_eq!(withdrawable_debit_portion(100, 40, 50), 0);
    assert_eq!(withdrawable_debit_portion(100, 40, 70), 10);
    assert_eq!(withdrawable_debit_portion(100, 40, 100), 40);
    assert_eq!(clamped_sub(i64::MIN, 1), i64::MIN);
    assert_eq!(clamped_add(i64::MAX, 1), i64::MAX);
    assert_eq!(finance_counter("12"), 12);
    match set_funds_aside(wallet(10), 11, "no funds") {
        Err(e) => assert_eq!(e, "no funds"),
        Ok(_) => panic!("there are no funds"),
    }
    match give_funds_back(Wallet { held: 10, ..wallet(0) }, 4, 2, 10) {
        Ok(w) => assert_eq!((w.balance, w.held, w.withdrawable), (Some(4), 0, 2)),
        Err(e) => panic!("{e}"),
    }
}

#[test]
fn project_budgets_are_reserved_and_spent() {
    let mut budgets = Table::new();
    let about = Json::Object(vec![(
        s("budget"),
        Json::Object(vec![(s("limit"), Json::Whole(100))]),
    )]);
    let reserved = reserve_project_budget(&budgets, "", &Some(about), 40, NOW);
    assert!(matches!(reserved, Ok(None)));
    budgets.put(
        "proj",
        Json::Object(vec![
            (s("reservedMinor"), Json::Whole(40)),
            (s("spentMinor"), Json::Whole(5)),
        ]),
    );
    match finalize_project_budget(&budgets, "proj", 40, 25, NOW) {
        Ok(Some(next)) => {
            assert_eq!(next.whole("reservedMinor"), Some(0));
            assert_eq!(next.whole("spentMinor"), Some(30));
        }
        Ok(None) => panic!("the project has a budget"),
        Err(e) => panic!("{e}"),
    }
    let odd = Json::Object(vec![(s("spent"), Json::Whole(-1))]);
    assert!(finance_nonnegative_field(&odd, "spent").is_err());
    assert_eq!(finance_nonnegative_field(&odd, "missing"), Ok(0));
}

fn nothing() -> Scan {
    Scan {
        holds: vec![],
        pools: vec![],
        reservations: vec![],
        live_debits: vec![],
        payouts: vec![],
        held: vec![],
        payout_held: vec![],
        withdrawable: vec![],
        spent: vec![],
        earned: vec![],
        budgets: Table::new(),
    }
}

#[test]
fn reconciliation_finds_what_does_not_add_up() {
    assert!(reconcile_financial_system("2@global", 10, &nothing()).is_err());
    match reconcile_financial_system("1@global", 10, &nothing()) {
        Ok(report) => assert!(report.healthy && report.issues.is_empty()),
        Err(e) => panic!("{e}"),
    }
    let scan = Scan {
        holds: vec![(s("h1"), None)],
        held: vec![(s("2@global"), s("5"))],
        withdrawable: vec![WithdrawableRow {
            user_id: s("2@global"),
            raw: s("9"),
            available: Some(3),
        }],
        ..nothing()
    };
    match reconcile_financial_system("1@global", 10, &scan) {
        Ok(report) => {
            assert!(!report.healthy);
            let codes: Vec<&str> = report.issues.iter().map(|i| i.code.as_str()).collect();
            assert!(codes.contains(&"hold.unreadable"));
            assert!(codes.contains(&"held.mismatch"));
        }
        Err(e) => panic!("{e}"),
    }
    assert_eq!(
        record_id("Json::FinanceHold::h1::hold", "Json::FinanceHold::", "::hold"),
        Some(s("h1"))
    );
}

#[test]
fn well_kept_books_reconcile() {
    let mut kept = earner();
    kept.wallets.put("2@global", Wallet { withdrawable: 0, ..wallet(100) });
    let scan = scan_ledger(&kept);
    assert_eq!(scan.held, vec![(s("2@global"), s("0")), (s("1@global"), s("0"))]);
    assert_eq!(scan.withdrawable[0].available, Some(100));
    match reconcile_financial_system("1@global", 10, &scan) {
        Ok(report) => assert!(report.healthy),
        Err(e) => panic!("{e}"),
    }
    kept.wallets.put("2@global", Wallet { held: 5, ..wallet(100) });
    match reconcile_financial_system("1@global", 10, &scan_ledger(&kept)) {
        Ok(report) => {
            assert!(!report.healthy);
            assert_eq!(report.issues[0].reference, "2@global");
        }
        Err(e) => panic!("{e}"),
    }
    let mut l = earner();
    let payout = match request_payout(&mut l, "2@global", &ask(60), NOW, "p1", "j1") {
        Ok(reply) => reply.payout,
        Err(e) => panic!("{e}"),
    };
    let held = l.wallets.get("2@global").unwrap().payout_held;
    let scan = Scan {
        payouts: vec![(s("p1"), Some(payout))],
        payout_held: vec![(s("2@global"), held.to_string())],
        ..nothing()
    };
    match reconcile_financial_system("1@global", 10, &scan) {
        Ok(report) => {
            assert!(report.healthy);
            assert_eq!((report.payout_count, report.pending_payout_count), (1, 1));
        }
        Err(e) => panic!("{e}"),
    }
    let drifted = Scan { payout_held: vec![(s("2@global"), s("59"))], ..scan };
    match reconcile_financial_system("1@global", 10, &drifted) {
        Ok(report) => {
            assert_eq!(report.issues.len(), 1);
            assert_eq!(report.issues[0].code, "payout.held_mismatch");
            assert_eq!(report.issues[0].detail, "stored=59, expected=60");
        }
        Err(e) => panic!("{e}"),
    }
}
