//! Payouts of earnings, and adjustments of payments that came from outside.
use vstd::prelude::*;
use vstd::utf8::encode_utf8;

use crate::decimal::{padded, write_padded};
use crate::finance::accounts::{
    account_shown, finance_payout_records, financial_account_snapshot, page_limit, page_size,
    payouts_of, payouts_shown, platform_owner, refuse_snapshot, snapshot_refusal, Account,
    AccountState,
};
use crate::finance::ids::{finance_hash, is_finance_id, request_hash, valid_finance_id};
use crate::finance::journal::{add_amount, amounts_of, no_amounts, posted, write_posted};
use crate::finance::ledger::{
    journaled, link_of, wallet_in, wallet_of, Books, Entry, JournalEntry, Ledger, Payout,
    PayoutState, Wallet,
};
use crate::finance::pools::{debt_refusal, pair};
use crate::finance::settlement::wallet_account;
use crate::json::{no_fields, object, Json, Tree};
use crate::outside::{json_bytes, json_encode};
use crate::table::{law_lookup_after_store, lookup, stored, Rows, Table};
use crate::text::{
    blank, cut, has_control, is_control, join2, join3, join4, same, split_once, texts, trim,
    trimmed,
};

verus! {

broadcast use {vstd::string::group_string_axioms, law_lookup_after_store};

/// Whether a text holds a control character.
pub open spec fn holds_control(s: Seq<char>) -> bool {
    exists|i: int| 0 <= i < s.len() && is_control(#[trigger] s[i])
}

/// What a payout action answers: whether it changed anything, the payout, and the journal
/// entry it wrote.
pub struct PayoutReply {
    pub applied: bool,
    pub payout: Payout,
    pub journal_id: Option<String>,
}

/// The answer of a payout action, as texts and numbers.
pub struct PayoutAnswer {
    pub applied: bool,
    pub payout: PayoutState,
    pub journal_id: Option<Seq<char>>,
}

impl View for PayoutReply {
    type V = PayoutAnswer;

    open spec fn view(&self) -> PayoutAnswer {
        PayoutAnswer {
            applied: self.applied,
            payout: self.payout@,
            journal_id: match self.journal_id {
                Some(id) => Some(id@),
                None => None,
            },
        }
    }
}

/// The books and the answer after a payout action, or why it was refused.
pub type PayoutOutcome = Result<(Books, PayoutAnswer), Seq<char>>;

/// The answer to a request that was applied before: the payout as it is now.
pub open spec fn payout_replayed(books: Books, payout_id: Seq<char>) -> PayoutOutcome {
    match lookup(books.payouts, payout_id) {
        Some(payout) => Ok((books, PayoutAnswer { applied: false, payout, journal_id: None })),
        None => Err("payout not found"@),
    }
}

fn replay_payout(ledger: &Ledger, payout_id: &str) -> (r: Result<PayoutReply, String>)
    ensures
        match r {
            Ok(reply) => payout_replayed(ledger@, payout_id@) == Ok::<
                (Books, PayoutAnswer),
                Seq<char>,
            >((ledger@, reply@)),
            Err(e) => payout_replayed(ledger@, payout_id@) == Err::<(Books, PayoutAnswer), Seq<char>>(
                e@,
            ),
        },
{
    match ledger.payouts.get(payout_id) {
        Some(payout) => Ok(PayoutReply { applied: false, payout: payout.copy(), journal_id: None }),
        None => Err("payout not found".to_owned()),
    }
}

// ---------------------------------------------------------------- request

/// A request to pay out earnings.
pub struct RequestPayoutInput {
    pub request_id: String,
    pub amount: i64,
    pub destination_ref: String,
}

/// The wallet after `amount` of its earnings was set aside for a payout.
pub open spec fn payout_set_aside(w: Wallet, amount: int) -> Result<Wallet, Seq<char>> {
    if debt_refusal(w) is Some {
        Err(debt_refusal(w)->0)
    } else if w.balance is None {
        Err("financial account not found"@)
    } else if w.withdrawable < 0 {
        Err("invalid finance counter"@)
    } else if amount > w.withdrawable || amount > w.balance->0 {
        Err("withdrawable earnings are not enough"@)
    } else if w.payout_held < 0 {
        Err("invalid finance counter"@)
    } else if w.payout_held + amount > i64::MAX {
        Err("payout held overflow"@)
    } else {
        Ok(
            Wallet {
                balance: Some((w.balance->0 - amount) as i64),
                withdrawable: (w.withdrawable - amount) as i64,
                payout_held: (w.payout_held + amount) as i64,
                ..w
            },
        )
    }
}

fn set_payout_aside(w: Wallet, amount: i64) -> (r: Result<Wallet, String>)
    requires
        amount > 0,
    ensures
        match r {
            Ok(next) => payout_set_aside(w, amount as int) == Ok::<Wallet, Seq<char>>(next),
            Err(e) => payout_set_aside(w, amount as int) == Err::<Wallet, Seq<char>>(e@),
        },
{
    if w.debt < 0 {
        return Err("invalid wallet debt".to_owned());
    }
    if w.debt > 0 {
        return Err("wallet has outstanding payment debt".to_owned());
    }
    let balance: i64 = match w.balance {
        Some(b) => b,
        None => {
            return Err("financial account not found".to_owned());
        },
    };
    if w.withdrawable < 0 {
        return Err("invalid finance counter".to_owned());
    }
    if amount > w.withdrawable || amount > balance {
        return Err("withdrawable earnings are not enough".to_owned());
    }
    if w.payout_held < 0 {
        return Err("invalid finance counter".to_owned());
    }
    let payout_held: i64 = match w.payout_held.checked_add(amount) {
        Some(v) => v,
        None => {
            return Err("payout held overflow".to_owned());
        },
    };
    Ok(
        Wallet {
            balance: Some(balance - amount),
            withdrawable: w.withdrawable - amount,
            payout_held,
            ..w
        },
    )
}

/// A request for a payout as a document.
pub open spec fn payout_request(input: RequestPayoutInput) -> Tree {
    no_fields().with("requestId"@, Tree::Text(input.request_id@)).with(
        "amount"@,
        Tree::Whole(input.amount),
    ).with("destinationRef"@, Tree::Text(input.destination_ref@))
}

fn write_payout_request(input: &RequestPayoutInput) -> (r: Json)
    ensures
        r@ == payout_request(*input),
{
    object().with("requestId", Json::Text(input.request_id.clone())).with(
        "amount",
        Json::Whole(input.amount),
    ).with("destinationRef", Json::Text(input.destination_ref.clone()))
}

/// What requesting a payout does.
pub open spec fn payout_requested(
    books: Books,
    user: Seq<char>,
    input: RequestPayoutInput,
    now: i64,
    payout_id: Seq<char>,
    journal_id: Seq<char>,
) -> PayoutOutcome {
    let destination = trimmed(input.destination_ref@);
    let hash = request_hash(json_bytes(payout_request(input)));
    let marker = "FinancePayoutRequest::"@ + user + "::"@ + input.request_id@;
    let previous = link_of(books.links, marker);
    let amount = input.amount as int;
    if !is_finance_id(input.request_id@) || amount <= 0 || destination.len() == 0 || encode_utf8(
        destination,
    ).len() > 256 || holds_control(destination) {
        Err("invalid payout request"@)
    } else if previous.len() > 0 {
        match cut(previous, "|"@) {
            None => Err("invalid payout idempotency record"@),
            Some((earlier, earlier_hash)) => if earlier_hash != hash {
                Err("requestId already used with different payout data"@)
            } else {
                payout_replayed(books, earlier)
            },
        }
    } else {
        match payout_set_aside(wallet_of(books.wallets, user), amount) {
            Err(e) => Err(e),
            Ok(w) => {
                let payout = PayoutState {
                    request_id: input.request_id@,
                    user_id: user,
                    amount,
                    destination_ref: destination,
                    status: "pending"@,
                    created_at: now as int,
                    request_hash: hash,
                    provider_reference: Seq::empty(),
                    reason: Seq::empty(),
                    resolution_id: Seq::empty(),
                    resolved_at: 0,
                };
                let written = Books {
                    wallets: stored(books.wallets, user, w),
                    payouts: stored(books.payouts, payout_id, payout),
                    links: stored(
                        stored(books.links, marker, payout_id + "|"@ + hash),
                        "FinancePayoutByUser::"@ + user + "::"@ + padded(now as int) + "::"@
                            + payout_id,
                        payout_id,
                    ),
                    ..books
                };
                let entry = Entry {
                    kind: "payout.requested"@,
                    hold_id: Seq::empty(),
                    payer_user_id: user,
                    created_at: now as int,
                    payload: posted(
                        seq![
                            (wallet_account(user, ":available"@), -amount),
                            (wallet_account(user, ":payout_held"@), amount),
                        ],
                    ).with("payoutId"@, Tree::Text(payout_id)).with(
                        "destinationRef"@,
                        Tree::Text(destination),
                    ),
                };
                Ok(
                    (
                        journaled(written, journal_id, entry, seq![user]),
                        PayoutAnswer { applied: true, payout, journal_id: Some(journal_id) },
                    ),
                )
            },
        }
    }
}

/// Set earnings of the user aside for a payout.
pub fn request_payout(
    ledger: &mut Ledger,
    user: &str,
    input: &RequestPayoutInput,
    now: i64,
    payout_id: &str,
    journal_id: &str,
) -> (r: Result<PayoutReply, String>)
    ensures
        match r {
            Ok(reply) => payout_requested(
                old(ledger)@,
                user@,
                *input,
                now,
                payout_id@,
                journal_id@,
            ) == Ok::<(Books, PayoutAnswer), Seq<char>>((final(ledger)@, reply@)),
            Err(e) => final(ledger)@ == old(ledger)@ && payout_requested(
                old(ledger)@,
                user@,
                *input,
                now,
                payout_id@,
                journal_id@,
            ) == Err::<(Books, PayoutAnswer), Seq<char>>(e@),
        },
{
    let destination = trim(input.destination_ref.as_str());
    if !valid_finance_id(input.request_id.as_str()) || input.amount <= 0 || destination.is_empty()
        || destination.as_bytes().len() > 256 || has_control(destination) {
        return Err("invalid payout request".to_owned());
    }
    let hash = finance_hash(&write_payout_request(input));
    let marker = join4("FinancePayoutRequest::", user, "::", input.request_id.as_str());
    let previous = ledger.link(marker.as_str());
    if !previous.as_str().is_empty() {
        return match split_once(previous.as_str(), "|") {
            None => Err("invalid payout idempotency record".to_owned()),
            Some((earlier, earlier_hash)) => if !same(earlier_hash, hash.as_str()) {
                Err("requestId already used with different payout data".to_owned())
            } else {
                replay_payout(&*ledger, earlier)
            },
        };
    }
    let w = match set_payout_aside(wallet_in(&ledger.wallets, user), input.amount) {
        Ok(w) => w,
        Err(e) => {
            return Err(e);
        },
    };
    let empty = String::new();
    assert(empty@ =~= Seq::<char>::empty());
    let payout = Payout {
        request_id: input.request_id.clone(),
        user_id: user.to_owned(),
        amount: input.amount,
        destination_ref: destination.to_owned(),
        status: "pending".to_owned(),
        created_at: now,
        request_hash: hash.clone(),
        provider_reference: empty.clone(),
        reason: empty.clone(),
        resolution_id: empty.clone(),
        resolved_at: 0,
    };
    let reply = PayoutReply {
        applied: true,
        payout: payout.copy(),
        journal_id: Some(journal_id.to_owned()),
    };
    ledger.wallets.put(user, w);
    ledger.payouts.put(payout_id, payout);
    ledger.links.put(marker.as_str(), join3(payout_id, "|", hash.as_str()));
    let stamp = write_padded(now);
    let head = join4("FinancePayoutByUser::", user, "::", stamp.as_str());
    let index = join3(head.as_str(), "::", payout_id);
    ledger.links.put(index.as_str(), payout_id.to_owned());
    let mut amounts = no_amounts();
    add_amount(&mut amounts, join3("wallet:", user, ":available").as_str(), -input.amount);
    add_amount(&mut amounts, join3("wallet:", user, ":payout_held").as_str(), input.amount);
    assert(amounts_of(amounts@) =~= seq![
        (wallet_account(user@, ":available"@), -(input.amount as int)),
        (wallet_account(user@, ":payout_held"@), input.amount as int),
    ]);
    let entry = JournalEntry {
        kind: "payout.requested".to_owned(),
        hold_id: empty,
        payer_user_id: user.to_owned(),
        created_at: now,
        payload: write_posted(&amounts).with("payoutId", Json::Text(payout_id.to_owned())).with(
            "destinationRef",
            Json::Text(destination.to_owned()),
        ),
    };
    let mut participants: Vec<String> = Vec::new();
    participants.push(user.to_owned());
    assert(texts(participants@) =~= seq![user@]);
    ledger.write_finance_journal(journal_id, entry, &participants);
    Ok(reply)
}

// ---------------------------------------------------------------- resolve

/// A decision on a pending payout.
pub struct ResolvePayoutInput {
    pub payout_id: String,
    pub resolution_id: String,
    pub status: String,
    pub provider_reference: String,
    pub reason: String,
}

/// Whether a decision is well formed. A paid payout names the provider's reference.
pub open spec fn is_resolution(input: ResolvePayoutInput) -> bool {
    &&& is_finance_id(input.payout_id@)
    &&& is_finance_id(input.resolution_id@)
    &&& input.status@ == "paid"@ || input.status@ == "rejected"@
    &&& encode_utf8(input.provider_reference@).len() <= 256
    &&& !holds_control(input.provider_reference@)
    &&& encode_utf8(input.reason@).len() <= 256
    &&& !holds_control(input.reason@)
    &&& input.status@ == "paid"@ ==> trimmed(input.provider_reference@).len() > 0
}

/// The wallet after a payout of `amount` was decided: the amount is no longer set aside,
/// and a rejected payout goes back to the balance and may be withdrawn again.
pub open spec fn payout_decided(w: Wallet, amount: int, rejected: bool) -> Result<Wallet, Seq<char>> {
    if w.payout_held < 0 {
        Err("invalid finance counter"@)
    } else if w.payout_held - amount < 0 {
        Err("payout held balance underflow"@)
    } else if !rejected {
        Ok(Wallet { payout_held: (w.payout_held - amount) as i64, ..w })
    } else if w.balance is None {
        Err("payout owner not found"@)
    } else if w.balance->0 + amount > i64::MAX {
        Err("payout refund overflow"@)
    } else if w.withdrawable < 0 {
        Err("invalid finance counter"@)
    } else if w.withdrawable + amount > i64::MAX {
        Err("withdrawable payout refund overflow"@)
    } else {
        Ok(
            Wallet {
                balance: Some((w.balance->0 + amount) as i64),
                withdrawable: (w.withdrawable + amount) as i64,
                payout_held: (w.payout_held - amount) as i64,
                ..w
            },
        )
    }
}

fn decide_payout(w: Wallet, amount: i64, rejected: bool) -> (r: Result<Wallet, String>)
    requires
        amount > 0,
    ensures
        match r {
            Ok(next) => payout_decided(w, amount as int, rejected) == Ok::<Wallet, Seq<char>>(next),
            Err(e) => payout_decided(w, amount as int, rejected) == Err::<Wallet, Seq<char>>(e@),
        },
{
    if w.payout_held < 0 {
        return Err("invalid finance counter".to_owned());
    }
    let payout_held: i64 = w.payout_held - amount;
    if payout_held < 0 {
        return Err("payout held balance underflow".to_owned());
    }
    if !rejected {
        return Ok(Wallet { payout_held, ..w });
    }
    let balance: i64 = match w.balance {
        Some(b) => b,
        None => {
            return Err("payout owner not found".to_owned());
        },
    };
    let balance: i64 = match balance.checked_add(amount) {
        Some(v) => v,
        None => {
            return Err("payout refund overflow".to_owned());
        },
    };
    if w.withdrawable < 0 {
        return Err("invalid finance counter".to_owned());
    }
    let withdrawable: i64 = match w.withdrawable.checked_add(amount) {
        Some(v) => v,
        None => {
            return Err("withdrawable payout refund overflow".to_owned());
        },
    };
    Ok(Wallet { balance: Some(balance), withdrawable, payout_held, ..w })
}

/// The decision on a payout as a document.
pub open spec fn payout_resolution(input: ResolvePayoutInput) -> Tree {
    no_fields().with("payoutId"@, Tree::Text(input.payout_id@)).with(
        "resolutionId"@,
        Tree::Text(input.resolution_id@),
    ).with("status"@, Tree::Text(input.status@)).with(
        "providerReference"@,
        Tree::Text(input.provider_reference@),
    ).with("reason"@, Tree::Text(input.reason@))
}

fn write_payout_resolution(input: &ResolvePayoutInput) -> (r: Json)
    ensures
        r@ == payout_resolution(*input),
{
    object().with("payoutId", Json::Text(input.payout_id.clone())).with(
        "resolutionId",
        Json::Text(input.resolution_id.clone()),
    ).with("status", Json::Text(input.status.clone())).with(
        "providerReference",
        Json::Text(input.provider_reference.clone()),
    ).with("reason", Json::Text(input.reason.clone()))
}

/// What deciding a payout does.
pub open spec fn payout_resolved(
    books: Books,
    caller: Seq<char>,
    input: ResolvePayoutInput,
    now: i64,
    journal_id: Seq<char>,
) -> PayoutOutcome {
    let hash = request_hash(json_bytes(payout_resolution(input)));
    let marker = "FinancePayoutResolution::"@ + input.resolution_id@;
    let previous = link_of(books.links, marker);
    if caller != platform_owner() {
        Err("access denied"@)
    } else if !is_resolution(input) {
        Err("invalid payout resolution"@)
    } else if previous.len() > 0 {
        match cut(previous, "|"@) {
            None => Err("invalid payout resolution idempotency record"@),
            Some((earlier, earlier_hash)) => if earlier != input.payout_id@ || earlier_hash != hash {
                Err("resolutionId already used with different payout data"@)
            } else {
                payout_replayed(books, earlier)
            },
        }
    } else {
        match lookup(books.payouts, input.payout_id@) {
            None => Err("payout not found"@),
            Some(payout) => if payout.status != "pending"@ {
                Err("payout is not pending"@)
            } else if payout.user_id.len() == 0 || payout.amount <= 0 {
                Err("invalid payout record"@)
            } else {
                let user = payout.user_id;
                let amount = payout.amount;
                let rejected = input.status@ == "rejected"@;
                match payout_decided(wallet_of(books.wallets, user), amount, rejected) {
                    Err(e) => Err(e),
                    Ok(w) => {
                        let decided = PayoutState {
                            status: input.status@,
                            provider_reference: input.provider_reference@,
                            reason: input.reason@,
                            resolution_id: input.resolution_id@,
                            resolved_at: now as int,
                            ..payout
                        };
                        let written = Books {
                            wallets: stored(books.wallets, user, w),
                            payouts: stored(books.payouts, input.payout_id@, decided),
                            links: stored(books.links, marker, input.payout_id@ + "|"@ + hash),
                            ..books
                        };
                        let entry = Entry {
                            kind: "payout."@ + input.status@,
                            hold_id: Seq::empty(),
                            payer_user_id: user,
                            created_at: now as int,
                            payload: posted(
                                seq![
                                    (wallet_account(user, ":payout_held"@), -amount),
                                    (
                                        if rejected {
                                            wallet_account(user, ":available"@)
                                        } else {
                                            "external:payouts"@
                                        },
                                        amount,
                                    ),
                                ],
                            ).with("payoutId"@, Tree::Text(input.payout_id@)).with(
                                "providerReference"@,
                                Tree::Text(input.provider_reference@),
                            ).with("reason"@, Tree::Text(input.reason@)),
                        };
                        Ok(
                            (
                                journaled(written, journal_id, entry, seq![user, caller]),
                                PayoutAnswer {
                                    applied: true,
                                    payout: decided,
                                    journal_id: Some(journal_id),
                                },
                            ),
                        )
                    },
                }
            },
        }
    }
}

fn check_resolution(input: &ResolvePayoutInput) -> (r: bool)
    ensures
        r == is_resolution(*input),
{
    let paid = same(input.status.as_str(), "paid");
    valid_finance_id(input.payout_id.as_str()) && valid_finance_id(input.resolution_id.as_str()) && (
    paid || same(input.status.as_str(), "rejected"))
        && input.provider_reference.as_str().as_bytes().len() <= 256 && !has_control(
        input.provider_reference.as_str(),
    ) && input.reason.as_str().as_bytes().len() <= 256 && !has_control(input.reason.as_str()) && !(
    paid && blank(input.provider_reference.as_str()))
}

/// Decide a pending payout as the platform owner.
pub fn resolve_payout(
    ledger: &mut Ledger,
    caller: &str,
    input: &ResolvePayoutInput,
    now: i64,
    journal_id: &str,
) -> (r: Result<PayoutReply, String>)
    ensures
        match r {
            Ok(reply) => payout_resolved(
                old(ledger)@,
                caller@,
                *input,
                now,
                journal_id@,
            ) == Ok::<(Books, PayoutAnswer), Seq<char>>((final(ledger)@, reply@)),
            Err(e) => final(ledger)@ == old(ledger)@ && payout_resolved(
                old(ledger)@,
                caller@,
                *input,
                now,
                journal_id@,
            ) == Err::<(Books, PayoutAnswer), Seq<char>>(e@),
        },
{
    if !same(caller, "1@global") {
        return Err("access denied".to_owned());
    }
    if !check_resolution(input) {
        return Err("invalid payout resolution".to_owned());
    }
    let payout_id = input.payout_id.as_str();
    let hash = finance_hash(&write_payout_resolution(input));
    let marker = join2("FinancePayoutResolution::", input.resolution_id.as_str());
    let previous = ledger.link(marker.as_str());
    if !previous.as_str().is_empty() {
        return match split_once(previous.as_str(), "|") {
            None => Err("invalid payout resolution idempotency record".to_owned()),
            Some((earlier, earlier_hash)) => if !same(earlier, payout_id) || !same(
                earlier_hash,
                hash.as_str(),
            ) {
                Err("resolutionId already used with different payout data".to_owned())
            } else {
                replay_payout(&*ledger, earlier)
            },
        };
    }
    let mut payout = match ledger.payouts.get(payout_id) {
        Some(payout) => payout.copy(),
        None => {
            return Err("payout not found".to_owned());
        },
    };
    if !same(payout.status.as_str(), "pending") {
        return Err("payout is not pending".to_owned());
    }
    if payout.user_id.as_str().is_empty() || payout.amount <= 0 {
        return Err("invalid payout record".to_owned());
    }
    let user = payout.user_id.clone();
    let amount: i64 = payout.amount;
    let rejected = same(input.status.as_str(), "rejected");
    let w = match decide_payout(wallet_in(&ledger.wallets, user.as_str()), amount, rejected) {
        Ok(w) => w,
        Err(e) => {
            return Err(e);
        },
    };
    payout.status = input.status.clone();
    payout.provider_reference = input.provider_reference.clone();
    payout.reason = input.reason.clone();
    payout.resolution_id = input.resolution_id.clone();
    payout.resolved_at = now;
    let reply = PayoutReply {
        applied: true,
        payout: payout.copy(),
        journal_id: Some(journal_id.to_owned()),
    };
    ledger.wallets.put(user.as_str(), w);
    ledger.payouts.put(payout_id, payout);
    ledger.links.put(marker.as_str(), join3(payout_id, "|", hash.as_str()));
    let mut amounts = no_amounts();
    add_amount(&mut amounts, join3("wallet:", user.as_str(), ":payout_held").as_str(), -amount);
    if rejected {
        add_amount(&mut amounts, join3("wallet:", user.as_str(), ":available").as_str(), amount);
    } else {
        add_amount(&mut amounts, "external:payouts", amount);
    }
    assert(amounts_of(amounts@) =~= seq![
        (wallet_account(user@, ":payout_held"@), -(amount as int)),
        (
            if rejected {
                wallet_account(user@, ":available"@)
            } else {
                "external:payouts"@
            },
            amount as int,
        ),
    ]);
    let empty = String::new();
    assert(empty@ =~= Seq::<char>::empty());
    let entry = JournalEntry {
        kind: join2("payout.", input.status.as_str()),
        hold_id: empty,
        payer_user_id: user.clone(),
        created_at: now,
        payload: write_posted(&amounts).with("payoutId", Json::Text(input.payout_id.clone())).with(
            "providerReference",
            Json::Text(input.provider_reference.clone()),
        ).with("reason", Json::Text(input.reason.clone())),
    };
    let participants = pair(user.as_str(), caller);
    ledger.write_finance_journal(journal_id, entry, &participants);
    Ok(reply)
}

// ---------------------------------------------------------------- list

/// A request to list payouts; an empty user is the caller, or everyone for the platform
/// owner.
pub struct ListPayoutsInput {
    pub user_id: String,
    pub limit: i64,
}

/// Where a payout belongs among payouts from the newest on: after all that are as new.
pub open spec fn payout_place(list: Seq<PayoutState>, payout: PayoutState) -> int
    decreases list.len(),
{
    if list.len() == 0 {
        0
    } else if list.last().created_at >= payout.created_at {
        list.len() as int
    } else {
        payout_place(list.drop_last(), payout)
    }
}

/// All payouts, the newest first; payouts of one moment keep their order.
pub open spec fn newest_first(rows: Rows<PayoutState>) -> Seq<PayoutState>
    decreases rows.len(),
{
    if rows.len() == 0 {
        Seq::empty()
    } else {
        let front = newest_first(rows.drop_last());
        front.insert(payout_place(front, rows.last().1), rows.last().1)
    }
}

/// The first elements of a list.
pub open spec fn first_of<T>(list: Seq<T>, count: int) -> Seq<T> {
    if count < list.len() {
        list.subrange(0, count)
    } else {
        list
    }
}

/// What listing payouts answers.
pub open spec fn payouts_listed(books: Books, caller: Seq<char>, input: ListPayoutsInput) -> Result<
    Seq<PayoutState>,
    Seq<char>,
> {
    let limit = page_size(input.limit, 50, 200);
    if input.user_id@.len() == 0 {
        if caller != platform_owner() {
            Ok(payouts_shown(books, caller, limit))
        } else {
            Ok(first_of(newest_first(books.payouts), limit))
        }
    } else if input.user_id@ != caller && caller != platform_owner() {
        Err("access denied"@)
    } else {
        Ok(payouts_shown(books, input.user_id@, limit))
    }
}

fn all_payouts(payouts: &Table<Payout>) -> (r: Vec<Payout>)
    ensures
        payouts_of(r@) == newest_first(payouts@),
{
    let mut out: Vec<Payout> = Vec::new();
    let mut i: usize = 0;
    assert(payouts@.subrange(0, 0) =~= Seq::empty());
    assert(payouts_of(out@) =~= newest_first(payouts@.subrange(0, 0)));
    while i < payouts.len()
        invariant
            i <= payouts@.len(),
            out@.len() == i,
            payouts_of(out@) == newest_first(payouts@.subrange(0, i as int)),
        decreases payouts@.len() - i,
    {
        let ghost upto = payouts@.subrange(0, i + 1);
        let ghost front = payouts_of(out@);
        assert(upto.drop_last() =~= payouts@.subrange(0, i as int));
        assert(upto.last() == payouts@[i as int]);
        let payout = payouts.record_at(i);
        let mut at: usize = out.len();
        assert(front.subrange(0, front.len() as int) =~= front);
        while at > 0 && out[at - 1].created_at < payout.created_at
            invariant
                at <= out@.len(),
                front == payouts_of(out@),
                payout_place(front, payout@) == payout_place(
                    front.subrange(0, at as int),
                    payout@,
                ),
            decreases at,
        {
            assert(front.subrange(0, at as int).last() == out@[at - 1]@);
            assert(front.subrange(0, at as int).drop_last() =~= front.subrange(0, at - 1));
            at = at - 1;
        }
        assert(payout_place(front, payout@) == at) by {
            if at > 0 {
                assert(front.subrange(0, at as int).last() == out@[at - 1]@);
            }
        }
        let copied = payout.copy();
        out.insert(at, copied);
        assert(payouts_of(out@) =~= front.insert(at as int, payout@));
        i = i + 1;
    }
    assert(payouts@.subrange(0, payouts@.len() as int) =~= payouts@);
    out
}

/// List payouts.
pub fn list_payouts(ledger: &Ledger, caller: &str, input: &ListPayoutsInput) -> (r: Result<
    Vec<Payout>,
    String,
>)
    ensures
        match r {
            Ok(list) => payouts_listed(ledger@, caller@, *input) == Ok::<
                Seq<PayoutState>,
                Seq<char>,
            >(payouts_of(list@)),
            Err(e) => payouts_listed(ledger@, caller@, *input) == Err::<
                Seq<PayoutState>,
                Seq<char>,
            >(e@),
        },
{
    let limit: usize = page_limit(input.limit, 50, 200);
    let owner = same(caller, "1@global");
    if input.user_id.as_str().is_empty() {
        if !owner {
            return Ok(finance_payout_records(ledger, caller, limit));
        }
        let mut all = all_payouts(&ledger.payouts);
        let ghost whole = all@;
        if limit < all.len() {
            all.truncate(limit);
            assert(payouts_of(all@) =~= payouts_of(whole).subrange(0, limit as int));
        }
        return Ok(all);
    }
    if !same(input.user_id.as_str(), caller) && !owner {
        return Err("access denied".to_owned());
    }
    Ok(finance_payout_records(ledger, input.user_id.as_str(), limit))
}

// ---------------------------------------------------------------- adjustments

/// A correction of a payment that came from outside: a reversal is negative.
pub struct PaymentAdjustmentInput {
    pub user_id: String,
    pub kind: String,
    pub idempotency_key: String,
    pub reference: String,
    pub amount: i64,
    pub metadata: Json,
}

/// What an adjustment answers: whether it changed anything, its journal entry, and the
/// user's account.
pub struct AdjustmentReply {
    pub applied: bool,
    pub journal_id: String,
    pub account: Account,
}

/// The answer to an adjustment, as texts and numbers.
pub struct AdjustmentAnswer {
    pub applied: bool,
    pub journal_id: Seq<char>,
    pub account: AccountState,
}

impl View for AdjustmentReply {
    type V = AdjustmentAnswer;

    open spec fn view(&self) -> AdjustmentAnswer {
        AdjustmentAnswer {
            applied: self.applied,
            journal_id: self.journal_id@,
            account: self.account@,
        }
    }
}

/// A kind of adjustment that the platform knows.
pub open spec fn is_adjustment_kind(kind: Seq<char>) -> bool {
    kind == "refund"@ || kind == "chargeback"@ || kind == "dispute"@ || kind == "manual_debit"@
        || kind == "manual_credit"@
}

/// The wallet after an adjustment, and by how much its balance and its debt changed. A
/// reversal takes what the balance covers, and the rest becomes debt; a credit repays debt
/// first.
pub open spec fn adjusted(w: Wallet, amount: int) -> Result<(Wallet, int, int), Seq<char>> {
    let balance = w.balance->0 as int;
    if w.balance is None {
        Err("payment adjustment target not found"@)
    } else if w.debt < 0 {
        Err("invalid wallet debt"@)
    } else if w.withdrawable < 0 {
        Err("invalid finance counter"@)
    } else if w.withdrawable > balance {
        Err("withdrawable balance exceeds available balance"@)
    } else if amount < 0 {
        let reversal = -amount;
        let taken = if balance <= reversal {
            balance
        } else {
            reversal
        };
        let left = balance - taken;
        if reversal > i64::MAX {
            Err("payment adjustment overflow"@)
        } else if w.debt + (reversal - taken) > i64::MAX {
            Err("wallet debt overflow"@)
        } else {
            Ok(
                (
                    Wallet {
                        balance: Some(left as i64),
                        withdrawable: if w.withdrawable <= left {
                            w.withdrawable
                        } else {
                            left as i64
                        },
                        debt: (w.debt + (reversal - taken)) as i64,
                        ..w
                    },
                    -taken,
                    reversal - taken,
                ),
            )
        }
    } else {
        let paid = if w.debt <= amount {
            w.debt as int
        } else {
            amount
        };
        if balance + (amount - paid) > i64::MAX {
            Err("wallet balance overflow"@)
        } else {
            Ok(
                (
                    Wallet {
                        balance: Some((balance + (amount - paid)) as i64),
                        debt: (w.debt - paid) as i64,
                        ..w
                    },
                    amount - paid,
                    -paid,
                ),
            )
        }
    }
}

fn adjust_wallet(w: Wallet, amount: i64) -> (r: Result<(Wallet, i64, i64), String>)
    ensures
        match r {
            Ok(moved) => adjusted(w, amount as int) == Ok::<(Wallet, int, int), Seq<char>>(
                (moved.0, moved.1 as int, moved.2 as int),
            ) && amount > i64::MIN,
            Err(e) => adjusted(w, amount as int) == Err::<(Wallet, int, int), Seq<char>>(e@),
        },
{
    let balance: i64 = match w.balance {
        Some(b) => b,
        None => {
            return Err("payment adjustment target not found".to_owned());
        },
    };
    if w.debt < 0 {
        return Err("invalid wallet debt".to_owned());
    }
    if w.withdrawable < 0 {
        return Err("invalid finance counter".to_owned());
    }
    if w.withdrawable > balance {
        return Err("withdrawable balance exceeds available balance".to_owned());
    }
    if amount < 0 {
        if amount == i64::MIN {
            return Err("payment adjustment overflow".to_owned());
        }
        let reversal: i64 = -amount;
        let taken: i64 = if balance <= reversal {
            balance
        } else {
            reversal
        };
        let left: i64 = balance - taken;
        let debt: i64 = match w.debt.checked_add(reversal - taken) {
            Some(v) => v,
            None => {
                return Err("wallet debt overflow".to_owned());
            },
        };
        let withdrawable: i64 = if w.withdrawable <= left {
            w.withdrawable
        } else {
            left
        };
        return Ok(
            (Wallet { balance: Some(left), withdrawable, debt, ..w }, -taken, reversal - taken),
        );
    }
    let paid: i64 = if w.debt <= amount {
        w.debt
    } else {
        amount
    };
    let credit: i64 = amount - paid;
    let balance: i64 = match balance.checked_add(credit) {
        Some(v) => v,
        None => {
            return Err("wallet balance overflow".to_owned());
        },
    };
    Ok((Wallet { balance: Some(balance), debt: w.debt - paid, ..w }, credit, -paid))
}

/// A request to adjust a payment as a document.
pub open spec fn adjustment_request(input: PaymentAdjustmentInput) -> Tree {
    no_fields().with("userId"@, Tree::Text(input.user_id@)).with(
        "amount"@,
        Tree::Whole(input.amount),
    ).with("kind"@, Tree::Text(input.kind@)).with("reference"@, Tree::Text(input.reference@)).with(
        "idempotencyKey"@,
        Tree::Text(input.idempotency_key@),
    ).with("metadata"@, input.metadata@)
}

fn write_adjustment_request(input: &PaymentAdjustmentInput) -> (r: Json)
    ensures
        r@ == adjustment_request(*input),
{
    object().with("userId", Json::Text(input.user_id.clone())).with(
        "amount",
        Json::Whole(input.amount),
    ).with("kind", Json::Text(input.kind.clone())).with(
        "reference",
        Json::Text(input.reference.clone()),
    ).with("idempotencyKey", Json::Text(input.idempotency_key.clone())).with(
        "metadata",
        input.metadata.copy(),
    )
}

/// What adjusting a payment does. `metadata_size` is the size of the encoded metadata.
pub open spec fn payment_adjusted(
    books: Books,
    caller: Seq<char>,
    input: PaymentAdjustmentInput,
    metadata_size: int,
    now: i64,
    journal_id: Seq<char>,
) -> Result<(Books, AdjustmentAnswer), Seq<char>> {
    let user = input.user_id@;
    let amount = input.amount as int;
    let hash = request_hash(json_bytes(adjustment_request(input)));
    let marker = "PaymentAdjustment::"@ + input.idempotency_key@;
    let previous = link_of(books.links, marker);
    if caller != platform_owner() {
        Err("access denied"@)
    } else if !is_finance_id(user) || !is_finance_id(input.kind@) || !is_finance_id(
        input.idempotency_key@,
    ) || input.reference@.len() == 0 || encode_utf8(input.reference@).len() > 256 || amount == 0 {
        Err("invalid payment adjustment"@)
    } else if !is_adjustment_kind(input.kind@) || (amount > 0 && input.kind@ != "manual_credit"@) {
        Err("unsupported payment adjustment kind"@)
    } else if metadata_size > 4096 {
        Err("payment adjustment metadata is too large"@)
    } else if previous.len() > 0 {
        match cut(previous, "|"@) {
            None => Err("invalid payment adjustment idempotency record"@),
            Some((earlier_hash, earlier)) => if earlier_hash != hash {
                Err("idempotency key already used with different adjustment"@)
            } else {
                match snapshot_refusal(wallet_of(books.wallets, user)) {
                    Some(e) => Err(e),
                    None => Ok(
                        (
                            books,
                            AdjustmentAnswer {
                                applied: false,
                                journal_id: earlier,
                                account: account_shown(books, user, 20),
                            },
                        ),
                    ),
                }
            },
        }
    } else {
        match adjusted(wallet_of(books.wallets, user), amount) {
            Err(e) => Err(e),
            Ok((w, wallet_delta, debt_delta)) => if snapshot_refusal(w) is Some {
                Err(snapshot_refusal(w)->0)
            } else {
                let entry = Entry {
                    kind: "payment."@ + input.kind@,
                    hold_id: Seq::empty(),
                    payer_user_id: user,
                    created_at: now as int,
                    payload: posted(
                        seq![
                            (wallet_account(user, ":available"@), wallet_delta),
                            (wallet_account(user, ":debt"@), debt_delta),
                            ("external:payments"@, -amount),
                        ],
                    ).with("adjustmentAmount"@, Tree::Whole(input.amount)).with(
                        "kind"@,
                        Tree::Text(input.kind@),
                    ).with("reference"@, Tree::Text(input.reference@)).with(
                        "metadata"@,
                        input.metadata@,
                    ),
                };
                let credited = journaled(
                    Books { wallets: stored(books.wallets, user, w), ..books },
                    journal_id,
                    entry,
                    seq![user, caller],
                );
                let written = Books {
                    links: stored(credited.links, marker, hash + "|"@ + journal_id),
                    ..credited
                };
                Ok(
                    (
                        written,
                        AdjustmentAnswer {
                            applied: true,
                            journal_id,
                            account: account_shown(written, user, 20),
                        },
                    ),
                )
            },
        }
    }
}

fn known_adjustment(kind: &str) -> (r: bool)
    ensures
        r == is_adjustment_kind(kind@),
{
    same(kind, "refund") || same(kind, "chargeback") || same(kind, "dispute") || same(
        kind,
        "manual_debit",
    ) || same(kind, "manual_credit")
}

/// Correct a payment that came from outside, as the platform owner.
pub fn payment_adjustment(
    ledger: &mut Ledger,
    caller: &str,
    input: &PaymentAdjustmentInput,
    now: i64,
    journal_id: &str,
) -> (r: Result<AdjustmentReply, String>)
    ensures
        match r {
            Ok(reply) => payment_adjusted(
                old(ledger)@,
                caller@,
                *input,
                json_bytes(input.metadata@).len() as int,
                now,
                journal_id@,
            ) == Ok::<(Books, AdjustmentAnswer), Seq<char>>((final(ledger)@, reply@)),
            Err(e) => final(ledger)@ == old(ledger)@ && payment_adjusted(
                old(ledger)@,
                caller@,
                *input,
                json_bytes(input.metadata@).len() as int,
                now,
                journal_id@,
            ) == Err::<(Books, AdjustmentAnswer), Seq<char>>(e@),
        },
{
    let metadata = json_encode(&input.metadata);
    adjust_payment(ledger, caller, input, metadata.len(), now, journal_id)
}

/// Correct a payment whose encoded metadata is of the given size.
pub fn adjust_payment(
    ledger: &mut Ledger,
    caller: &str,
    input: &PaymentAdjustmentInput,
    metadata_size: usize,
    now: i64,
    journal_id: &str,
) -> (r: Result<AdjustmentReply, String>)
    ensures
        match r {
            Ok(reply) => payment_adjusted(
                old(ledger)@,
                caller@,
                *input,
                metadata_size as int,
                now,
                journal_id@,
            ) == Ok::<(Books, AdjustmentAnswer), Seq<char>>((final(ledger)@, reply@)),
            Err(e) => final(ledger)@ == old(ledger)@ && payment_adjusted(
                old(ledger)@,
                caller@,
                *input,
                metadata_size as int,
                now,
                journal_id@,
            ) == Err::<(Books, AdjustmentAnswer), Seq<char>>(e@),
        },
{
    let user = input.user_id.as_str();
    let kind = input.kind.as_str();
    if !same(caller, "1@global") {
        return Err("access denied".to_owned());
    }
    if !valid_finance_id(user) || !valid_finance_id(kind) || !valid_finance_id(
        input.idempotency_key.as_str(),
    ) || input.reference.as_str().is_empty() || input.reference.as_str().as_bytes().len() > 256
        || input.amount == 0 {
        return Err("invalid payment adjustment".to_owned());
    }
    if !known_adjustment(kind) || (input.amount > 0 && !same(kind, "manual_credit")) {
        return Err("unsupported payment adjustment kind".to_owned());
    }
    if metadata_size > 4096 {
        return Err("payment adjustment metadata is too large".to_owned());
    }
    let hash = finance_hash(&write_adjustment_request(input));
    let marker = join2("PaymentAdjustment::", input.idempotency_key.as_str());
    let previous = ledger.link(marker.as_str());
    if !previous.as_str().is_empty() {
        return match split_once(previous.as_str(), "|") {
            None => Err("invalid payment adjustment idempotency record".to_owned()),
            Some((earlier_hash, earlier)) => if !same(earlier_hash, hash.as_str()) {
                Err("idempotency key already used with different adjustment".to_owned())
            } else {
                match financial_account_snapshot(&*ledger, user, 20) {
                    Err(e) => Err(e),
                    Ok(account) => Ok(
                        AdjustmentReply {
                            applied: false,
                            journal_id: earlier.to_owned(),
                            account,
                        },
                    ),
                }
            },
        };
    }
    let (w, wallet_delta, debt_delta) = match adjust_wallet(
        wallet_in(&ledger.wallets, user),
        input.amount,
    ) {
        Ok(moved) => moved,
        Err(e) => {
            return Err(e);
        },
    };
    match refuse_snapshot(&w) {
        Some(e) => {
            return Err(e);
        },
        None => {},
    }
    ledger.wallets.put(user, w);
    let mut amounts = no_amounts();
    add_amount(&mut amounts, join3("wallet:", user, ":available").as_str(), wallet_delta);
    add_amount(&mut amounts, join3("wallet:", user, ":debt").as_str(), debt_delta);
    add_amount(&mut amounts, "external:payments", -input.amount);
    assert(amounts_of(amounts@) =~= seq![
        (wallet_account(user@, ":available"@), wallet_delta as int),
        (wallet_account(user@, ":debt"@), debt_delta as int),
        ("external:payments"@, -(input.amount as int)),
    ]);
    let empty = String::new();
    assert(empty@ =~= Seq::<char>::empty());
    let entry = JournalEntry {
        kind: join2("payment.", kind),
        hold_id: empty,
        payer_user_id: user.to_owned(),
        created_at: now,
        payload: write_posted(&amounts).with("adjustmentAmount", Json::Whole(input.amount)).with(
            "kind",
            Json::Text(input.kind.clone()),
        ).with("reference", Json::Text(input.reference.clone())).with(
            "metadata",
            input.metadata.copy(),
        ),
    };
    let participants = pair(user, caller);
    ledger.write_finance_journal(journal_id, entry, &participants);
    ledger.links.put(marker.as_str(), join3(hash.as_str(), "|", journal_id));
    assert(wallet_of(ledger@.wallets, user@) == w);
    match financial_account_snapshot(&*ledger, user, 20) {
        Err(e) => {
            assert(false);
            Err(e)
        },
        Ok(account) => Ok(
            AdjustmentReply { applied: true, journal_id: journal_id.to_owned(), account },
        ),
    }
}

/// An adjustment changes what a wallet owns by exactly its amount, and leaves no more to
/// withdraw than is available.
pub proof fn law_an_adjustment_moves_its_amount(
    w: Wallet,
    amount: int,
    next: Wallet,
    wallet_delta: int,
    debt_delta: int,
)
    requires
        adjusted(w, amount) == Ok::<(Wallet, int, int), Seq<char>>((next, wallet_delta, debt_delta)),
    ensures
        crate::finance::moves::assets(next) == crate::finance::moves::assets(w) + amount,
        wallet_delta - debt_delta == amount,
        crate::finance::moves::is_covered(next),
        amount < 0 ==> (next.debt > w.debt ==> next.balance == Some(0i64)),
{
}

/// A rejected payout leaves the wallet as it was before the request.
pub proof fn law_a_rejected_payout_is_undone(w: Wallet, amount: int, next: Wallet)
    requires
        amount > 0,
        payout_set_aside(w, amount) == Ok::<Wallet, Seq<char>>(next),
    ensures
        payout_decided(next, amount, true) == Ok::<Wallet, Seq<char>>(w),
        payout_decided(next, amount, false) == Ok::<Wallet, Seq<char>>(
            Wallet { payout_held: w.payout_held, ..next },
        ),
{
}

} // verus!
