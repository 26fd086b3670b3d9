//! Money between creatures, and money that comes from outside.
use vstd::prelude::*;

use crate::creature::identity::{email_key, link_text};
use crate::decimal::{decimal, write_i64};
use crate::finance::accounts::platform_owner;
use crate::finance::laws::{all_covered, money, owned};
use crate::finance::journal::{
    add_amount, amounts_of, figures, no_amounts, posted, write_figures, write_posted,
};
use crate::finance::ledger::{
    journaled, link_of, wallet_in, wallet_of, Books, Entry, JournalEntry, Ledger,
    Wallet,
};
use crate::finance::moves::{is_covered, withdrawable_debit_portion, withdrawable_part};
use crate::finance::pools::pair;
use crate::finance::settlement::wallet_account;
use crate::json::{Json, Tree};
use crate::table::{law_lookup_after_store, law_total_after_store, stored, Rows, Table};
use crate::text::{join2, join3, join4, same, trim, trimmed};

verus! {

broadcast use {vstd::string::group_string_axioms, law_lookup_after_store};

// ---------------------------------------------------------------- transfer

/// A request to send money to another creature.
pub struct TransferInput {
    pub to_username: String,
    pub amount: i64,
}

/// What a transfer answers.
pub struct TransferReply {
    pub amount: i64,
    pub to_user_id: String,
    pub debt_repaid: i64,
    pub journal_id: String,
}

/// The answer of a transfer, as texts and numbers.
pub struct TransferAnswer {
    pub amount: int,
    pub to_user_id: Seq<char>,
    pub debt_repaid: int,
    pub journal_id: Seq<char>,
}

impl View for TransferReply {
    type V = TransferAnswer;

    open spec fn view(&self) -> TransferAnswer {
        TransferAnswer {
            amount: self.amount as int,
            to_user_id: self.to_user_id@,
            debt_repaid: self.debt_repaid as int,
            journal_id: self.journal_id@,
        }
    }
}

/// The wallet that sends `amount`, and the withdrawable part of what it sends. Funds that
/// cannot be withdrawn go first.
pub open spec fn sent(w: Wallet, amount: int) -> Result<(Wallet, int), Seq<char>> {
    let balance = w.balance->0;
    let part = withdrawable_part(balance as int, w.withdrawable as int, amount);
    if w.withdrawable < 0 {
        Err("invalid finance counter"@)
    } else if w.withdrawable > balance {
        Err("withdrawable balance exceeds available balance"@)
    } else {
        Ok(
            (
                Wallet {
                    balance: Some((balance - amount) as i64),
                    withdrawable: (w.withdrawable - part) as i64,
                    ..w
                },
                part,
            ),
        )
    }
}

/// The debt that `amount` repays.
pub open spec fn debt_repaid(w: Wallet, amount: int) -> int {
    if w.debt < amount {
        w.debt as int
    } else {
        amount
    }
}

/// The withdrawable part that reaches a wallet after its debt took its share; debt is
/// repaid with funds that cannot be withdrawn as far as they go.
pub open spec fn withdrawable_received(amount: int, part: int, repaid: int) -> int {
    let other = amount - part;
    if repaid > other {
        part - (repaid - other)
    } else {
        part
    }
}

/// The wallet that receives `amount`, of which `part` is withdrawable.
pub open spec fn received(w: Wallet, amount: int, part: int) -> Result<Wallet, Seq<char>> {
    let repaid = debt_repaid(w, amount);
    let credit = amount - repaid;
    let more = withdrawable_received(amount, part, repaid);
    if w.debt < 0 {
        Err("invalid wallet debt"@)
    } else if w.balance->0 + credit > i64::MAX {
        Err("target balance overflow"@)
    } else if w.withdrawable < 0 {
        Err("invalid finance counter"@)
    } else if w.withdrawable + more > i64::MAX {
        Err("target withdrawable overflow"@)
    } else {
        Ok(
            Wallet {
                balance: Some((w.balance->0 + credit) as i64),
                debt: (w.debt - repaid) as i64,
                withdrawable: (w.withdrawable + more) as i64,
                ..w
            },
        )
    }
}

/// The books after `from` sent money to the creature of a user name.
pub open spec fn transferred(
    books: Books,
    usernames: Rows<Seq<char>>,
    from: Seq<char>,
    input: TransferInput,
    now: i64,
    journal_id: Seq<char>,
) -> Result<(Books, TransferAnswer), Seq<char>> {
    let amount = input.amount as int;
    let to = link_of(usernames, input.to_username@);
    let source = wallet_of(books.wallets, from);
    let target = wallet_of(books.wallets, to);
    if amount <= 0 {
        Err("amount must be greater than zero"@)
    } else if source.balance is None {
        Err("sender creature not found"@)
    } else if source.balance->0 < amount {
        Err("your balance is not enough"@)
    } else if to.len() == 0 {
        Err("target creature not found"@)
    } else if to == from {
        Err("cannot transfer to the same wallet"@)
    } else if target.balance is None {
        Err("target creature not found"@)
    } else {
        match sent(source, amount) {
            Err(e) => Err(e),
            Ok((less, part)) => match received(target, amount, part) {
                Err(e) => Err(e),
                Ok(more) => {
                    let repaid = debt_repaid(target, amount);
                    let entry = Entry {
                        kind: "wallet.transfer"@,
                        hold_id: Seq::empty(),
                        payer_user_id: from,
                        created_at: now as int,
                        payload: figures(
                            posted(
                                seq![
                                    (wallet_account(from, ":available"@), -amount),
                                    (wallet_account(to, ":available"@), amount - repaid),
                                    (wallet_account(to, ":debt"@), -repaid),
                                ],
                            ),
                            seq![
                                ("amount"@, amount),
                                ("withdrawableAmount"@, part),
                                ("debtRepaid"@, repaid),
                            ],
                        ),
                    };
                    let next = Books {
                        wallets: stored(stored(books.wallets, from, less), to, more),
                        ..books
                    };
                    Ok(
                        (
                            journaled(next, journal_id, entry, seq![from, to]),
                            TransferAnswer {
                                amount,
                                to_user_id: to,
                                debt_repaid: repaid,
                                journal_id,
                            },
                        ),
                    )
                },
            },
        }
    }
}

fn send(w: Wallet, amount: i64) -> (r: Result<(Wallet, i64), String>)
    requires
        w.balance is Some,
        0 < amount <= w.balance->0,
    ensures
        match r {
            Ok((less, part)) => sent(w, amount as int) == Ok::<(Wallet, int), Seq<char>>(
                (less, part as int),
            ) && 0 <= part <= amount,
            Err(e) => sent(w, amount as int) == Err::<(Wallet, int), Seq<char>>(e@),
        },
{
    let balance: i64 = match w.balance {
        Some(balance) => balance,
        None => 0,
    };
    if w.withdrawable < 0 {
        return Err("invalid finance counter".to_owned());
    }
    if w.withdrawable > balance {
        return Err("withdrawable balance exceeds available balance".to_owned());
    }
    let part: i64 = withdrawable_debit_portion(balance, w.withdrawable, amount);
    Ok(
        (
            Wallet {
                balance: Some(balance - amount),
                withdrawable: w.withdrawable - part,
                ..w
            },
            part,
        ),
    )
}

fn receive(w: Wallet, amount: i64, part: i64) -> (r: Result<(Wallet, i64), String>)
    requires
        w.balance is Some,
        0 <= part <= amount,
    ensures
        match r {
            Ok((more, repaid)) => received(w, amount as int, part as int) == Ok::<
                Wallet,
                Seq<char>,
            >(more) && repaid == debt_repaid(w, amount as int) && 0 <= repaid <= amount,
            Err(e) => received(w, amount as int, part as int) == Err::<Wallet, Seq<char>>(e@),
        },
{
    let balance: i64 = match w.balance {
        Some(balance) => balance,
        None => 0,
    };
    if w.debt < 0 {
        return Err("invalid wallet debt".to_owned());
    }
    let repaid: i64 = if w.debt < amount {
        w.debt
    } else {
        amount
    };
    let credit: i64 = amount - repaid;
    let other: i64 = amount - part;
    let more: i64 = if repaid > other {
        part - (repaid - other)
    } else {
        part
    };
    let next: i64 = match balance.checked_add(credit) {
        Some(next) => next,
        None => {
            return Err("target balance overflow".to_owned());
        },
    };
    if w.withdrawable < 0 {
        return Err("invalid finance counter".to_owned());
    }
    let withdrawable: i64 = match w.withdrawable.checked_add(more) {
        Some(next) => next,
        None => {
            return Err("target withdrawable overflow".to_owned());
        },
    };
    Ok((Wallet { balance: Some(next), debt: w.debt - repaid, withdrawable, ..w }, repaid))
}

/// Send money to the creature of a user name. Debt of the receiver is repaid first.
pub fn transfer(
    ledger: &mut Ledger,
    usernames: &Table<String>,
    from: &str,
    input: &TransferInput,
    now: i64,
    journal_id: &str,
) -> (r: Result<TransferReply, String>)
    ensures
        match r {
            Ok(reply) => transferred(old(ledger)@, usernames@, from@, *input, now, journal_id@)
                == Ok::<(Books, TransferAnswer), Seq<char>>((final(ledger)@, reply@)),
            Err(e) => final(ledger)@ == old(ledger)@ && transferred(
                old(ledger)@,
                usernames@,
                from@,
                *input,
                now,
                journal_id@,
            ) == Err::<(Books, TransferAnswer), Seq<char>>(e@),
        },
{
    let amount: i64 = input.amount;
    if amount <= 0 {
        return Err("amount must be greater than zero".to_owned());
    }
    let source = wallet_in(&ledger.wallets, from);
    let balance: i64 = match source.balance {
        Some(balance) => balance,
        None => {
            return Err("sender creature not found".to_owned());
        },
    };
    if balance < amount {
        return Err("your balance is not enough".to_owned());
    }
    let to: String = match usernames.get(input.to_username.as_str()) {
        Some(id) => id.clone(),
        None => {
            return Err("target creature not found".to_owned());
        },
    };
    if to.as_str().is_empty() {
        return Err("target creature not found".to_owned());
    }
    if same(to.as_str(), from) {
        return Err("cannot transfer to the same wallet".to_owned());
    }
    let target = wallet_in(&ledger.wallets, to.as_str());
    if target.balance.is_none() {
        return Err("target creature not found".to_owned());
    }
    let (less, part) = match send(source, amount) {
        Ok(moved) => moved,
        Err(e) => {
            return Err(e);
        },
    };
    let (more, repaid) = match receive(target, amount, part) {
        Ok(moved) => moved,
        Err(e) => {
            return Err(e);
        },
    };
    let mut amounts = no_amounts();
    let from_available = join3("wallet:", from, ":available");
    let to_available = join3("wallet:", to.as_str(), ":available");
    let to_debt = join3("wallet:", to.as_str(), ":debt");
    add_amount(&mut amounts, from_available.as_str(), -amount);
    add_amount(&mut amounts, to_available.as_str(), amount - repaid);
    add_amount(&mut amounts, to_debt.as_str(), -repaid);
    let mut totals = no_amounts();
    add_amount(&mut totals, "amount", amount);
    add_amount(&mut totals, "withdrawableAmount", part);
    add_amount(&mut totals, "debtRepaid", repaid);
    assert(amounts_of(amounts@) =~= seq![
        (wallet_account(from@, ":available"@), -amount as int),
        (wallet_account(to@, ":available"@), amount - repaid),
        (wallet_account(to@, ":debt"@), -repaid as int),
    ]);
    assert(amounts_of(totals@) =~= seq![
        ("amount"@, amount as int),
        ("withdrawableAmount"@, part as int),
        ("debtRepaid"@, repaid as int),
    ]);
    let none = String::new();
    assert(none@ =~= Seq::<char>::empty());
    ledger.wallets.put(from, less);
    ledger.wallets.put(to.as_str(), more);
    let participants = pair(from, to.as_str());
    ledger.write_finance_journal(
        journal_id,
        JournalEntry {
            kind: "wallet.transfer".to_owned(),
            hold_id: none,
            payer_user_id: from.to_owned(),
            created_at: now,
            payload: write_figures(write_posted(&amounts), &totals),
        },
        &participants,
    );
    Ok(
        TransferReply {
            amount,
            to_user_id: to,
            debt_repaid: repaid,
            journal_id: journal_id.to_owned(),
        },
    )
}

// ---------------------------------------------------------------- mint

/// A request to credit a payment that was made outside.
pub struct MintInput {
    pub to_user_email: String,
    pub amount: i64,
    pub idempotency_key: String,
}

/// What minting answers: what it credited, or what an earlier request of the same key did.
pub enum MintReply {
    Applied {
        balance: i64,
        wallet_credit: i64,
        debt_repaid: i64,
        debt: i64,
        journal_id: String,
    },
    AlreadyApplied { previous: String },
}

/// The answer of minting, as texts and numbers.
pub enum MintAnswer {
    Applied {
        balance: int,
        wallet_credit: int,
        debt_repaid: int,
        debt: int,
        journal_id: Seq<char>,
    },
    AlreadyApplied { previous: Seq<char> },
}

impl View for MintReply {
    type V = MintAnswer;

    open spec fn view(&self) -> MintAnswer {
        match self {
            MintReply::Applied { balance, wallet_credit, debt_repaid, debt, journal_id } =>
                MintAnswer::Applied {
                    balance: *balance as int,
                    wallet_credit: *wallet_credit as int,
                    debt_repaid: *debt_repaid as int,
                    debt: *debt as int,
                    journal_id: journal_id@,
                },
            MintReply::AlreadyApplied { previous } => MintAnswer::AlreadyApplied {
                previous: previous@,
            },
        }
    }
}

/// The link that marks a payment as credited.
pub open spec fn mint_marker(key: Seq<char>) -> Seq<char> {
    "MintApplied::"@ + trimmed(key)
}

/// Whether a request names the payment it credits.
pub open spec fn names_payment(key: Seq<char>) -> bool {
    trimmed(key).len() > 0
}

/// What is recorded of a credited payment.
pub open spec fn mint_record(target: Seq<char>, amount: int, journal_id: Seq<char>) -> Seq<char> {
    target + ":"@ + decimal(amount) + ":"@ + journal_id
}

/// The books after a payment of a user, found by their mail address among the identities of
/// the node, was credited.
pub open spec fn minted(
    books: Books,
    identities: Rows<Seq<char>>,
    caller: Seq<char>,
    input: MintInput,
    now: i64,
    journal_id: Seq<char>,
) -> Result<(Books, MintAnswer), Seq<char>> {
    let amount = input.amount as int;
    let key = input.idempotency_key@;
    let applied = link_of(books.links, mint_marker(key));
    let target = link_of(identities, email_key(input.to_user_email@));
    let w = wallet_of(books.wallets, target);
    let repaid = debt_repaid(w, amount);
    let credit = amount - repaid;
    if caller != platform_owner() {
        Err("access denied"@)
    } else if amount <= 0 {
        Err("amount must be greater than zero"@)
    } else if names_payment(key) && applied.len() > 0 {
        Ok((books, MintAnswer::AlreadyApplied { previous: applied }))
    } else if target.len() == 0 || w.balance is None {
        Err("target user not found"@)
    } else if w.debt < 0 {
        Err("invalid wallet debt"@)
    } else if w.balance->0 + credit > i64::MAX {
        Err("balance overflow"@)
    } else {
        let next = Wallet {
            balance: Some((w.balance->0 + credit) as i64),
            debt: (w.debt - repaid) as i64,
            ..w
        };
        let entry = Entry {
            kind: "payment.credited"@,
            hold_id: Seq::empty(),
            payer_user_id: target,
            created_at: now as int,
            payload: figures(
                posted(
                    seq![
                        ("external:payments"@, -amount),
                        (wallet_account(target, ":available"@), credit),
                        (wallet_account(target, ":debt"@), -repaid),
                    ],
                ),
                seq![("grossAmount"@, amount), ("walletCredit"@, credit), ("debtRepaid"@, repaid)],
            ).with("paymentReference"@, Tree::Text(key)),
        };
        let credited = journaled(
            Books { wallets: stored(books.wallets, target, next), ..books },
            journal_id,
            entry,
            seq![target, caller],
        );
        let marked = if names_payment(key) {
            Books {
                links: stored(
                    credited.links,
                    mint_marker(key),
                    mint_record(target, amount, journal_id),
                ),
                ..credited
            }
        } else {
            credited
        };
        Ok(
            (
                marked,
                MintAnswer::Applied {
                    balance: w.balance->0 + credit,
                    wallet_credit: credit,
                    debt_repaid: repaid,
                    debt: w.debt - repaid,
                    journal_id,
                },
            ),
        )
    }
}

/// Credit a payment that was made outside, once per payment that the request names.
pub fn mint(
    ledger: &mut Ledger,
    identities: &Table<String>,
    caller: &str,
    input: &MintInput,
    now: i64,
    journal_id: &str,
) -> (r: Result<MintReply, String>)
    ensures
        match r {
            Ok(reply) => minted(
                old(ledger)@,
                identities@,
                caller@,
                *input,
                now,
                journal_id@,
            ) == Ok::<(Books, MintAnswer), Seq<char>>((final(ledger)@, reply@)),
            Err(e) => final(ledger)@ == old(ledger)@ && minted(
                old(ledger)@,
                identities@,
                caller@,
                *input,
                now,
                journal_id@,
            ) == Err::<(Books, MintAnswer), Seq<char>>(e@),
        },
{
    let amount: i64 = input.amount;
    if !same(caller, "1@global") {
        return Err("access denied".to_owned());
    }
    if amount <= 0 {
        return Err("amount must be greater than zero".to_owned());
    }
    let key = trim(input.idempotency_key.as_str());
    let named: bool = !key.is_empty();
    let marker = join2("MintApplied::", key);
    if named {
        let applied = ledger.link(marker.as_str());
        if !applied.as_str().is_empty() {
            return Ok(MintReply::AlreadyApplied { previous: applied });
        }
    }
    let address = join2("UserEmailToId::", input.to_user_email.as_str());
    let target = link_text(identities, address.as_str());
    if target.as_str().is_empty() {
        return Err("target user not found".to_owned());
    }
    let w = wallet_in(&ledger.wallets, target.as_str());
    let balance: i64 = match w.balance {
        Some(balance) => balance,
        None => {
            return Err("target user not found".to_owned());
        },
    };
    if w.debt < 0 {
        return Err("invalid wallet debt".to_owned());
    }
    let repaid: i64 = if w.debt < amount {
        w.debt
    } else {
        amount
    };
    let credit: i64 = amount - repaid;
    let next: i64 = match balance.checked_add(credit) {
        Some(next) => next,
        None => {
            return Err("balance overflow".to_owned());
        },
    };
    let mut amounts = no_amounts();
    let available = join3("wallet:", target.as_str(), ":available");
    let debt = join3("wallet:", target.as_str(), ":debt");
    add_amount(&mut amounts, "external:payments", -amount);
    add_amount(&mut amounts, available.as_str(), credit);
    add_amount(&mut amounts, debt.as_str(), -repaid);
    let mut totals = no_amounts();
    add_amount(&mut totals, "grossAmount", amount);
    add_amount(&mut totals, "walletCredit", credit);
    add_amount(&mut totals, "debtRepaid", repaid);
    assert(amounts_of(amounts@) =~= seq![
        ("external:payments"@, -amount as int),
        (wallet_account(target@, ":available"@), credit as int),
        (wallet_account(target@, ":debt"@), -repaid as int),
    ]);
    assert(amounts_of(totals@) =~= seq![
        ("grossAmount"@, amount as int),
        ("walletCredit"@, credit as int),
        ("debtRepaid"@, repaid as int),
    ]);
    let payload = write_figures(write_posted(&amounts), &totals).with(
        "paymentReference",
        Json::Text(input.idempotency_key.clone()),
    );
    let none = String::new();
    assert(none@ =~= Seq::<char>::empty());
    ledger.wallets.put(
        target.as_str(),
        Wallet { balance: Some(next), debt: w.debt - repaid, ..w },
    );
    let participants = pair(target.as_str(), caller);
    ledger.write_finance_journal(
        journal_id,
        JournalEntry {
            kind: "payment.credited".to_owned(),
            hold_id: none,
            payer_user_id: target.clone(),
            created_at: now,
            payload,
        },
        &participants,
    );
    if named {
        let much = write_i64(amount);
        let head = join4(target.as_str(), ":", much.as_str(), ":");
        let record = join2(head.as_str(), journal_id);
        ledger.links.put(marker.as_str(), record);
    }
    Ok(
        MintReply::Applied {
            balance: next,
            wallet_credit: credit,
            debt_repaid: repaid,
            debt: w.debt - repaid,
            journal_id: journal_id.to_owned(),
        },
    )
}

// ---------------------------------------------------------------- laws

/// A transfer conserves money and lets nobody withdraw more than they have.
pub proof fn law_a_transfer_conserves_money(
    books: Books,
    usernames: Rows<Seq<char>>,
    from: Seq<char>,
    input: TransferInput,
    now: i64,
    journal_id: Seq<char>,
    after: Books,
    answer: TransferAnswer,
)
    requires
        transferred(books, usernames, from, input, now, journal_id) == Ok::<
            (Books, TransferAnswer),
            Seq<char>,
        >((after, answer)),
    ensures
        money(after) == money(books),
        all_covered(books.wallets) ==> all_covered(after.wallets),
{
    let amount = input.amount as int;
    let to = link_of(usernames, input.to_username@);
    let source = wallet_of(books.wallets, from);
    let target = wallet_of(books.wallets, to);
    let (less, part) = sent(source, amount)->Ok_0;
    let more = received(target, amount, part)->Ok_0;
    let middle = stored(books.wallets, from, less);
    law_total_after_store(books.wallets, from, less, owned());
    law_total_after_store(middle, to, more, owned());
    if all_covered(books.wallets) {
        assert forall|user: Seq<char>| is_covered(#[trigger] wallet_of(after.wallets, user)) by {
            assert(is_covered(wallet_of(books.wallets, user)));
            assert(is_covered(target));
        }
    }
}

/// Minting brings exactly the amount into the books, or nothing where it was credited
/// before.
pub proof fn law_minting_adds_its_amount(
    books: Books,
    identities: Rows<Seq<char>>,
    caller: Seq<char>,
    input: MintInput,
    now: i64,
    journal_id: Seq<char>,
    after: Books,
    answer: MintAnswer,
)
    requires
        minted(books, identities, caller, input, now, journal_id) == Ok::<
            (Books, MintAnswer),
            Seq<char>,
        >((after, answer)),
    ensures
        answer is Applied ==> money(after) == money(books) + input.amount,
        answer is AlreadyApplied ==> after == books,
{
    if answer is Applied {
        let target = link_of(identities, email_key(input.to_user_email@));
        law_total_after_store(
            books.wallets,
            target,
            wallet_of(after.wallets, target),
            owned(),
        );
        assert(after.wallets == stored(books.wallets, target, wallet_of(after.wallets, target)));
    }
}

/// A payment that is named is credited once: the same request again changes nothing and
/// reports what the first one did.
pub proof fn law_a_payment_is_credited_once(
    books: Books,
    identities: Rows<Seq<char>>,
    caller: Seq<char>,
    input: MintInput,
    now: i64,
    journal_id: Seq<char>,
    after: Books,
    answer: MintAnswer,
    later: i64,
    other_identities: Rows<Seq<char>>,
    other_journal: Seq<char>,
)
    requires
        names_payment(input.idempotency_key@),
        minted(books, identities, caller, input, now, journal_id) == Ok::<
            (Books, MintAnswer),
            Seq<char>,
        >((after, answer)),
        answer is Applied,
    ensures
        minted(after, other_identities, caller, input, later, other_journal) == Ok::<
            (Books, MintAnswer),
            Seq<char>,
        >(
            (
                after,
                MintAnswer::AlreadyApplied {
                    previous: mint_record(
                        link_of(identities, email_key(input.to_user_email@)),
                        input.amount as int,
                        journal_id,
                    ),
                },
            ),
        ),
{
    reveal_strlit(":");
}

} // verus!
