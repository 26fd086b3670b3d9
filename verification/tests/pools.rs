use aseman_node::finance::ids::HoldBeneficiaryInput;
use aseman_node::finance::ledger::{Ledger, SettlementLine, Wallet};
use aseman_node::finance::pool_runs::{
    debit_pool, release_pool, reserve_pool, settle_pool, DebitPoolInput, DebitReply,
    ReleasePoolInput, ReleaseReply, ReservationReply, ReservePoolInput, SettlePoolInput, SliceReply,
};
use aseman_node::finance::pools::{
    close_pool, open_pool, refresh_pool, ClosePoolInput, OpenPoolInput, PoolReply, RefreshPoolInput,
};
use aseman_node::finance::settlement::plan_caps;
use aseman_node::json::Json;

const NOW: i64 = 1_800_000_000_000;

fn s(value: &str) -> String {
    value.to_string()
}

fn wallet(balance: i64) -> Wallet {
    Wallet {
        balance: Some(balance),
        held: 0,
        debt: 0,
        withdrawable: 0,
        payout_held: 0,
        earned: 0,
        spent: 0,
    }
}

fn quote() -> Json {
    let row = |user: &str, amount: i64| {
        Json::Object(vec![
            (s("userId"), Json::Text(s(user))),
            (s("role"), Json::Text(s(user))),
            (s("maxAmount"), Json::Whole(amount)),
        ])
    };
    Json::Object(vec![
        (s("payerUserId"), Json::Text(s("payer"))),
        (s("expiresAt"), Json::Whole(NOW + 60_000)),
        (s("requestId"), Json::Text(s("run-1"))),
        (s("maxAmount"), Json::Whole(700)),
        (s("beneficiaries"), Json::Array(vec![row("creator", 500), row("host", 200)])),
        (
            s("holdRequest"),
            Json::Object(vec![(
                s("beneficiaries"),
                Json::Array(vec![row("creator", 500), row("host", 200)]),
            )]),
        ),
    ])
}

fn open_input() -> OpenPoolInput {
    OpenPoolInput {
        max_amount: 800,
        settlement_authority: s("meter-owner"),
        meter_program_id: s("meter"),
        expires_at: NOW + 60_000,
        idempotency_key: s("key-1"),
    }
}

fn ledger() -> Ledger {
    let mut l = Ledger::new();
    l.wallets.put("payer", Wallet { withdrawable: 400, ..wallet(1000) });
    l.wallets.put("meter-owner", wallet(0));
    l.wallets.put("creator", wallet(0));
    l.wallets.put("host", wallet(0));
    l.quotes.put("q1", quote());
    l
}

fn opened() -> Ledger {
    let mut l = ledger();
    match open_pool(&mut l, "payer", &open_input(), NOW, "p1", "j1") {
        Ok(_) => {}
        Err(e) => panic!("{e}"),
    }
    l
}

fn owned(l: &Ledger) -> i64 {
    let mut sum: i64 = 0;
    for i in 0..l.wallets.len() {
        let w = l.wallets.record_at(i);
        sum += w.balance.unwrap_or(0) + w.held + w.payout_held - w.debt;
    }
    sum
}

fn refused<T>(r: Result<T, String>) -> String {
    match r {
        Ok(_) => panic!("expected a refusal"),
        Err(e) => e,
    }
}

fn reserve_input() -> ReservePoolInput {
    ReservePoolInput {
        pool_id: s("p1"),
        payer_user_id: s("payer"),
        quote_id: s("q1"),
        run_id: s("run-1"),
        max_amount: 700,
    }
}

fn line(user: &str, amount: i64) -> SettlementLine {
    SettlementLine { user_id: s(user), role: s(user), amount, source_ref: s("run-1") }
}

fn settle_input(lines: Vec<SettlementLine>) -> SettlePoolInput {
    SettlePoolInput {
        pool_id: s("p1"),
        payer_user_id: s("payer"),
        quote_id: s("q1"),
        run_id: s("run-1"),
        settlement_id: s("set-1"),
        usage_hash: "b".repeat(64),
        lines,
    }
}

fn debit_input(id: &str, lines: Vec<SettlementLine>) -> DebitPoolInput {
    DebitPoolInput {
        pool_id: s("p1"),
        payer_user_id: s("payer"),
        quote_id: s("q1"),
        run_id: s("run-1"),
        debit_id: s(id),
        usage_hash: "b".repeat(64),
        lines,
    }
}

#[test]
fn a_pool_sets_funds_aside_and_gives_them_back() {
    let mut l = opened();
    {
        let w = l.wallets.get("payer").unwrap();
        assert_eq!((w.balance, w.held, w.withdrawable), (Some(200), 800, 200));
        let p = l.pools.get("p1").unwrap();
        assert_eq!((p.remaining, p.reserved, p.spent), (800, 0, 0));
    }
    let again = open_pool(&mut l, "payer", &open_input(), NOW, "p2", "j9");
    assert!(matches!(again, Ok(PoolReply::Unchanged { .. })));
    assert!(l.pools.get("p2").is_none());

    let close = ClosePoolInput { pool_id: s("p1"), close_id: s("c1"), reason: s("done") };
    assert!(matches!(
        close_pool(&mut l, "payer", &close, NOW, "j2"),
        Ok(PoolReply::Changed { .. })
    ));
    let w = l.wallets.get("payer").unwrap();
    assert_eq!((w.balance, w.held, w.withdrawable), (Some(1000), 0, 400));
    assert_eq!(owned(&l), 1000);
}

#[test]
fn a_pool_is_refreshed_once_for_each_refresh() {
    let mut l = opened();
    let input = RefreshPoolInput {
        pool_id: s("p1"),
        amount: 100,
        refresh_id: s("r1"),
        expires_at: NOW + 90_000,
    };
    assert!(matches!(
        refresh_pool(&mut l, "payer", &input, NOW, "j2"),
        Ok(PoolReply::Changed { .. })
    ));
    assert!(matches!(
        refresh_pool(&mut l, "payer", &input, NOW, "j3"),
        Ok(PoolReply::Unchanged { .. })
    ));
    let p = l.pools.get("p1").unwrap();
    assert_eq!((p.max_amount, p.remaining, p.expires_at), (900, 900, NOW + 90_000));
    assert_eq!(l.wallets.get("payer").unwrap().balance, Some(100));
    assert_eq!(owned(&l), 1000);
}

#[test]
fn slices_are_reserved_settled_and_released() {
    let mut l = opened();
    assert!(matches!(
        reserve_pool(&mut l, "meter-owner", &reserve_input(), NOW, "j2"),
        Ok(ReservationReply::Changed { .. })
    ));
    {
        let p = l.pools.get("p1").unwrap();
        assert_eq!((p.remaining, p.reserved), (100, 700));
    }
    assert!(matches!(
        reserve_pool(&mut l, "meter-owner", &reserve_input(), NOW, "j3"),
        Ok(ReservationReply::Unchanged { .. })
    ));
    let settled = settle_pool(
        &mut l,
        "meter-owner",
        &settle_input(vec![line("creator", 300), line("host", 100)]),
        NOW,
        "j4",
    );
    match settled {
        Ok(SliceReply::Settled { actual_amount, refunded_to_pool, .. }) => {
            assert_eq!((actual_amount, refunded_to_pool), (400, 300));
        }
        Ok(_) => panic!("nothing was settled"),
        Err(e) => panic!("{e}"),
    }
    let p = l.pools.get("p1").unwrap();
    assert_eq!((p.remaining, p.reserved, p.spent), (400, 0, 400));
    let payload = &l.journal.get("j4").unwrap().payload;
    assert_eq!(payload.text("runId"), Some(reserve_input().run_id.as_str()));
    assert_eq!((payload.whole("actual"), payload.whole("refundedToPool")), (Some(400), Some(300)));
    assert_eq!(l.wallets.get("creator").unwrap().balance, Some(300));
    assert_eq!(l.wallets.get("host").unwrap().withdrawable, 100);
    assert_eq!(owned(&l), 1000);
}

#[test]
fn a_released_slice_returns_to_its_pool() {
    let mut l = opened();
    assert!(reserve_pool(&mut l, "meter-owner", &reserve_input(), NOW, "j2").is_ok());
    let input = ReleasePoolInput {
        pool_id: s("p1"),
        payer_user_id: s("payer"),
        run_id: s("run-1"),
        release_id: s("rel-1"),
        reason: s("cancelled"),
    };
    match release_pool(&mut l, "meter-owner", &input, NOW, "j3") {
        Ok(ReleaseReply::Released { amount, .. }) => assert_eq!(amount, 700),
        Ok(_) => panic!("nothing was released"),
        Err(e) => panic!("{e}"),
    }
    let p = l.pools.get("p1").unwrap();
    assert_eq!((p.remaining, p.reserved, p.spent), (800, 0, 0));
    assert!(matches!(
        release_pool(&mut l, "meter-owner", &input, NOW, "j4"),
        Ok(ReleaseReply::Unchanged { .. })
    ));
}

#[test]
fn a_debit_is_charged_once() {
    let mut l = opened();
    let input = debit_input("d1", vec![line("creator", 30)]);
    match debit_pool(&mut l, "meter-owner", &input, NOW, "j2") {
        Ok(DebitReply::Charged { charged, remaining, .. }) => {
            assert_eq!((charged, remaining), (30, 770));
        }
        Ok(_) => panic!("nothing was charged"),
        Err(e) => panic!("{e}"),
    }
    assert!(matches!(
        debit_pool(&mut l, "meter-owner", &input, NOW, "j3"),
        Ok(DebitReply::Unchanged { remaining: 770 })
    ));
    assert_eq!(l.wallets.get("creator").unwrap().balance, Some(30));
    let p = l.pools.get("p1").unwrap();
    assert_eq!((p.remaining, p.spent), (770, 30));
    assert_eq!(owned(&l), 1000);
}

#[test]
fn an_exhausted_pool_charges_nothing() {
    let mut l = ledger();
    let small = OpenPoolInput { max_amount: 20, ..open_input() };
    assert!(open_pool(&mut l, "payer", &small, NOW, "p1", "j1").is_ok());
    assert!(matches!(
        debit_pool(&mut l, "meter-owner", &debit_input("d1", vec![line("creator", 30)]), NOW, "j2"),
        Ok(DebitReply::Exhausted { remaining: 20 })
    ));
    assert_eq!(l.wallets.get("creator").unwrap().balance, Some(0));
}

#[test]
fn pools_are_checked() {
    let mut l = ledger();
    for input in [
        OpenPoolInput { max_amount: 0, ..open_input() },
        OpenPoolInput { expires_at: NOW, ..open_input() },
        OpenPoolInput { settlement_authority: s(""), ..open_input() },
        OpenPoolInput { idempotency_key: s(""), ..open_input() },
        OpenPoolInput { max_amount: 1001, ..open_input() },
    ] {
        assert!(open_pool(&mut l, "payer", &input, NOW, "p1", "j1").is_err());
        assert_eq!(l.wallets.get("payer").unwrap().balance, Some(1000));
    }
    let mut l = opened();
    assert!(reserve_pool(&mut l, "host", &reserve_input(), NOW, "j2").is_err());
    let much = ReservePoolInput { max_amount: 801, ..reserve_input() };
    assert!(reserve_pool(&mut l, "meter-owner", &much, NOW, "j2").is_err());
    assert!(settle_pool(&mut l, "meter-owner", &settle_input(vec![]), NOW, "j2").is_err());
    let close = ClosePoolInput { pool_id: s("p9"), close_id: s("c1"), reason: s("done") };
    let text = refused(close_pool(&mut l, "payer", &close, NOW, "j2"));
    assert!(text.contains("pool"));
    assert!(reserve_pool(&mut l, "meter-owner", &reserve_input(), NOW, "j2").is_ok());
    let over = settle_input(vec![line("creator", 501)]);
    assert!(settle_pool(&mut l, "meter-owner", &over, NOW, "j3").is_err());
    assert_eq!(owned(&l), 1000);
}

#[test]
fn caps_are_kept_for_each_role() {
    let plan = vec![
        HoldBeneficiaryInput { user_id: s("a"), role: s("creator"), max_amount: 5 },
        HoldBeneficiaryInput { user_id: s("b"), role: s("host"), max_amount: 7 },
    ];
    let caps = plan_caps(&plan, true).unwrap();
    assert_eq!(caps.len(), 2);
    let faulty = vec![HoldBeneficiaryInput { user_id: s(""), role: s("creator"), max_amount: 5 }];
    assert!(plan_caps(&faulty, true).is_none());
}
