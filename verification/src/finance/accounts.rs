//! A user's financial account: balances, active holds, the open pool, and recent history.
use vstd::prelude::*;

use crate::finance::ids::{is_finance_id, valid_finance_id};
use crate::finance::ledger::{
    link_of, wallet_in, wallet_of, Books, Entry, Hold, HoldState, JournalEntry, Ledger,
    Payout, PayoutState, Pool, PoolState, Wallet,
};
use crate::order::{greatest, take_greatest};
use crate::table::{lookup, Rows, Table};
use crate::text::{has_prefix, join2, join3, same, starts_with, texts};

verus! {

broadcast use vstd::string::group_string_axioms;

/// The creature that runs the platform.
pub open spec fn platform_owner() -> Seq<char> {
    "1@global"@
}

/// The link keys that start with `prefix`.
pub open spec fn keys_under(links: Rows<Seq<char>>, prefix: Seq<char>) -> Seq<Seq<char>>
    decreases links.len(),
{
    if links.len() == 0 {
        Seq::empty()
    } else if has_prefix(links.last().0, prefix) {
        keys_under(links.drop_last(), prefix).push(links.last().0)
    } else {
        keys_under(links.drop_last(), prefix)
    }
}

/// The link keys that start with `prefix`.
pub fn links_under(links: &Table<String>, prefix: &str) -> (r: Vec<String>)
    ensures
        texts(r@) == keys_under(links@, prefix@),
{
    let mut out: Vec<String> = Vec::new();
    let mut i: usize = 0;
    assert(links@.subrange(0, 0) =~= Seq::empty());
    assert(texts(out@) =~= keys_under(links@.subrange(0, 0), prefix@));
    while i < links.len()
        invariant
            i <= links@.len(),
            texts(out@) == keys_under(links@.subrange(0, i as int), prefix@),
        decreases links@.len() - i,
    {
        let ghost upto = links@.subrange(0, i + 1);
        assert(upto.drop_last() =~= links@.subrange(0, i as int));
        assert(upto.last() == links@[i as int]);
        let key = links.key_at(i);
        if starts_with(key, prefix) {
            let ghost before = out@;
            out.push(key.to_owned());
            assert(texts(out@) =~= texts(before).push(key@));
        }
        i = i + 1;
    }
    assert(links@.subrange(0, links@.len() as int) =~= links@);
    out
}

/// The targets of links: what each key, in order, points to.
pub open spec fn targets(links: Rows<Seq<char>>, keys: Seq<Seq<char>>) -> Seq<Seq<char>> {
    keys.map_values(|key: Seq<char>| link_of(links, key))
}

/// The newest `limit` targets under a prefix whose keys carry a time, newest first.
pub open spec fn newest(links: Rows<Seq<char>>, prefix: Seq<char>, limit: int) -> Seq<Seq<char>> {
    targets(links, greatest(keys_under(links, prefix), limit))
}

/// The newest `limit` targets under `prefix`.
pub fn newest_under(ledger: &Ledger, prefix: &str, limit: usize) -> (r: Vec<String>)
    ensures
        texts(r@) == newest(ledger@.links, prefix@, limit as int),
{
    let keys = take_greatest(&links_under(&ledger.links, prefix), limit);
    let mut out: Vec<String> = Vec::new();
    let mut i: usize = 0;
    while i < keys.len()
        invariant
            i <= keys@.len(),
            out@.len() == i,
            forall|j: int|
                0 <= j < i ==> (#[trigger] out@[j])@ == link_of(ledger@.links, keys@[j]@),
        decreases keys@.len() - i,
    {
        out.push(ledger.link(keys[i].as_str()));
        i = i + 1;
    }
    assert(texts(out@) =~= targets(ledger@.links, texts(keys@)));
    out
}

/// The records of a list of identifiers, in order; an identifier without a record is left
/// out.
pub open spec fn found<T>(rows: Rows<T>, ids: Seq<Seq<char>>) -> Seq<T>
    decreases ids.len(),
{
    if ids.len() == 0 {
        Seq::empty()
    } else {
        match lookup(rows, ids.last()) {
            Some(record) => found(rows, ids.drop_last()).push(record),
            None => found(rows, ids.drop_last()),
        }
    }
}

/// Whether a hold still sets funds aside.
pub open spec fn is_active(hold: HoldState) -> bool {
    hold.status == "open"@ || hold.status == "running"@
}

/// The active holds of a list.
pub open spec fn active(holds: Seq<HoldState>) -> Seq<HoldState>
    decreases holds.len(),
{
    if holds.len() == 0 {
        holds
    } else if is_active(holds.last()) {
        active(holds.drop_last()).push(holds.last())
    } else {
        active(holds.drop_last())
    }
}

/// The identifiers of a list that are not empty.
pub open spec fn named(ids: Seq<Seq<char>>) -> Seq<Seq<char>> {
    crate::text::nonempty(ids)
}

/// The payouts of a list.
pub open spec fn payouts_of(list: Seq<Payout>) -> Seq<PayoutState> {
    list.map_values(|p: Payout| p@)
}

/// The holds of a list.
pub open spec fn holds_of(list: Seq<Hold>) -> Seq<HoldState> {
    list.map_values(|h: Hold| h@)
}

/// The entries of a list.
pub open spec fn entries_of(list: Seq<JournalEntry>) -> Seq<Entry> {
    list.map_values(|e: JournalEntry| e@)
}

/// The newest payouts of a user.
pub open spec fn payouts_shown(books: Books, user: Seq<char>, limit: int) -> Seq<PayoutState> {
    found(books.payouts, newest(books.links, "FinancePayoutByUser::"@ + user + "::"@, limit))
}

/// The newest payouts of a user.
pub fn finance_payout_records(ledger: &Ledger, user_id: &str, limit: usize) -> (r: Vec<Payout>)
    ensures
        payouts_of(r@) == payouts_shown(ledger@, user_id@, limit as int),
{
    let prefix = join3("FinancePayoutByUser::", user_id, "::");
    let ids = newest_under(ledger, prefix.as_str(), limit);
    let mut out: Vec<Payout> = Vec::new();
    let ghost all = texts(ids@);
    let mut i: usize = 0;
    assert(all.subrange(0, 0) =~= Seq::empty());
    assert(payouts_of(out@) =~= found(ledger@.payouts, all.subrange(0, 0)));
    while i < ids.len()
        invariant
            i <= ids@.len(),
            all == texts(ids@),
            payouts_of(out@) == found(ledger@.payouts, all.subrange(0, i as int)),
        decreases ids@.len() - i,
    {
        let ghost upto = all.subrange(0, i + 1);
        assert(upto.drop_last() =~= all.subrange(0, i as int));
        assert(upto.last() == ids@[i as int]@);
        match ledger.payouts.get(ids[i].as_str()) {
            Some(payout) => {
                let ghost before = out@;
                let copied = payout.copy();
                out.push(copied);
                assert(payouts_of(out@) =~= payouts_of(before).push(copied@));
            },
            None => {},
        }
        i = i + 1;
    }
    assert(all.subrange(0, all.len() as int) =~= all);
    out
}

/// A user's financial account.
pub struct Account {
    pub user_id: String,
    pub available: i64,
    pub held: i64,
    pub debt: i64,
    pub withdrawable: i64,
    pub payout_held: i64,
    pub earned: i64,
    pub spent: i64,
    pub active_holds: Vec<Hold>,
    pub pool: Option<Pool>,
    pub transactions: Vec<JournalEntry>,
    pub payouts: Vec<Payout>,
}

/// A financial account, as texts and numbers.
pub struct AccountState {
    pub user_id: Seq<char>,
    pub available: int,
    pub held: int,
    pub debt: int,
    pub withdrawable: int,
    pub payout_held: int,
    pub earned: int,
    pub spent: int,
    pub active_holds: Seq<HoldState>,
    pub pool: Option<PoolState>,
    pub transactions: Seq<Entry>,
    pub payouts: Seq<PayoutState>,
}

impl View for Account {
    type V = AccountState;

    open spec fn view(&self) -> AccountState {
        AccountState {
            user_id: self.user_id@,
            available: self.available as int,
            held: self.held as int,
            debt: self.debt as int,
            withdrawable: self.withdrawable as int,
            payout_held: self.payout_held as int,
            earned: self.earned as int,
            spent: self.spent as int,
            active_holds: holds_of(self.active_holds@),
            pool: match self.pool {
                Some(pool) => Some(pool@),
                None => None,
            },
            transactions: entries_of(self.transactions@),
            payouts: payouts_of(self.payouts@),
        }
    }
}

/// Why a wallet cannot be shown.
pub open spec fn snapshot_refusal(w: Wallet) -> Option<Seq<char>> {
    if w.balance is None {
        Some("financial account not found"@)
    } else if w.held < 0 {
        Some("invalid held balance"@)
    } else if w.debt < 0 {
        Some("invalid wallet debt"@)
    } else if w.withdrawable < 0 || w.payout_held < 0 || w.earned < 0 || w.spent < 0 {
        Some("invalid finance counter"@)
    } else {
        None
    }
}

/// The open pool that a user's pool index points to.
pub open spec fn pool_shown(books: Books, user: Seq<char>) -> Option<PoolState> {
    let id = link_of(books.links, "FinancePoolByUser::"@ + user);
    if id.len() == 0 {
        None
    } else {
        match lookup(books.pools, id) {
            Some(pool) => if pool.status == "open"@ {
                Some(pool)
            } else {
                None
            },
            None => None,
        }
    }
}

/// The account of a user with at most `limit` transactions and payouts.
pub open spec fn account_shown(books: Books, user: Seq<char>, limit: int) -> AccountState {
    let w = wallet_of(books.wallets, user);
    AccountState {
        user_id: user,
        available: w.balance->0 as int,
        held: w.held as int,
        debt: w.debt as int,
        withdrawable: w.withdrawable as int,
        payout_held: w.payout_held as int,
        earned: w.earned as int,
        spent: w.spent as int,
        active_holds: active(
            found(
                books.holds,
                newest(books.links, "FinanceHoldByPayer::"@ + user + "::"@, 100),
            ),
        ),
        pool: pool_shown(books, user),
        transactions: found(
            books.journal,
            named(newest(books.links, "FinanceJournalByUser::"@ + user + "::"@, limit)),
        ),
        payouts: payouts_shown(books, user, limit),
    }
}

/// Why the account of this wallet cannot be shown.
pub(crate) fn refuse_snapshot(w: &Wallet) -> (r: Option<String>)
    ensures
        match r {
            Some(e) => snapshot_refusal(*w) == Some(e@),
            None => snapshot_refusal(*w) is None,
        },
{
    if w.balance.is_none() {
        Some("financial account not found".to_owned())
    } else if w.held < 0 {
        Some("invalid held balance".to_owned())
    } else if w.debt < 0 {
        Some("invalid wallet debt".to_owned())
    } else if w.withdrawable < 0 || w.payout_held < 0 || w.earned < 0 || w.spent < 0 {
        Some("invalid finance counter".to_owned())
    } else {
        None
    }
}

fn active_holds(ledger: &Ledger, user_id: &str) -> (r: Vec<Hold>)
    ensures
        holds_of(r@) == active(
            found(
                ledger@.holds,
                newest(ledger@.links, "FinanceHoldByPayer::"@ + user_id@ + "::"@, 100),
            ),
        ),
{
    let prefix = join3("FinanceHoldByPayer::", user_id, "::");
    let ids = newest_under(ledger, prefix.as_str(), 100);
    let mut out: Vec<Hold> = Vec::new();
    let ghost all = texts(ids@);
    let mut i: usize = 0;
    assert(all.subrange(0, 0) =~= Seq::empty());
    assert(holds_of(out@) =~= active(found(ledger@.holds, all.subrange(0, 0))));
    while i < ids.len()
        invariant
            i <= ids@.len(),
            all == texts(ids@),
            holds_of(out@) == active(found(ledger@.holds, all.subrange(0, i as int))),
        decreases ids@.len() - i,
    {
        let ghost upto = all.subrange(0, i + 1);
        assert(upto.drop_last() =~= all.subrange(0, i as int));
        assert(upto.last() == ids@[i as int]@);
        match ledger.holds.get(ids[i].as_str()) {
            Some(hold) => {
                proof {
                    let front = found(ledger@.holds, all.subrange(0, i as int));
                    assert(front.push(hold@).drop_last() =~= front);
                    assert(front.push(hold@).last() == hold@);
                }
                if same(hold.status.as_str(), "open") || same(hold.status.as_str(), "running") {
                    let ghost before = out@;
                    let copied = hold.copy();
                    out.push(copied);
                    assert(holds_of(out@) =~= holds_of(before).push(copied@));
                }
            },
            None => {},
        }
        i = i + 1;
    }
    assert(all.subrange(0, all.len() as int) =~= all);
    out
}

/// A copy of a journal entry.
fn copy_entry(entry: &JournalEntry) -> (r: JournalEntry)
    ensures
        r@ == entry@,
{
    JournalEntry {
        kind: entry.kind.clone(),
        hold_id: entry.hold_id.clone(),
        payer_user_id: entry.payer_user_id.clone(),
        created_at: entry.created_at,
        payload: entry.payload.copy(),
    }
}

fn transactions(ledger: &Ledger, user_id: &str, limit: usize) -> (r: Vec<JournalEntry>)
    ensures
        entries_of(r@) == found(
            ledger@.journal,
            named(
                newest(ledger@.links, "FinanceJournalByUser::"@ + user_id@ + "::"@, limit as int),
            ),
        ),
{
    let prefix = join3("FinanceJournalByUser::", user_id, "::");
    let ids = newest_under(ledger, prefix.as_str(), limit);
    let mut out: Vec<JournalEntry> = Vec::new();
    let ghost all = texts(ids@);
    let mut i: usize = 0;
    assert(all.subrange(0, 0) =~= Seq::empty());
    assert(entries_of(out@) =~= found(ledger@.journal, named(all.subrange(0, 0))));
    while i < ids.len()
        invariant
            i <= ids@.len(),
            all == texts(ids@),
            entries_of(out@) == found(ledger@.journal, named(all.subrange(0, i as int))),
        decreases ids@.len() - i,
    {
        let ghost upto = all.subrange(0, i + 1);
        assert(upto.drop_last() =~= all.subrange(0, i as int));
        assert(upto.last() == ids@[i as int]@);
        if !ids[i].as_str().is_empty() {
            proof {
                let front = named(all.subrange(0, i as int));
                assert(front.push(ids@[i as int]@).drop_last() =~= front);
            }
            match ledger.journal.get(ids[i].as_str()) {
                Some(entry) => {
                    let ghost before = out@;
                    let copied = copy_entry(entry);
                    out.push(copied);
                    assert(entries_of(out@) =~= entries_of(before).push(copied@));
                },
                None => {},
            }
        }
        i = i + 1;
    }
    assert(all.subrange(0, all.len() as int) =~= all);
    out
}

fn open_pool_of(ledger: &Ledger, user_id: &str) -> (r: Option<Pool>)
    ensures
        match r {
            Some(pool) => pool_shown(ledger@, user_id@) == Some(pool@),
            None => pool_shown(ledger@, user_id@) is None,
        },
{
    let key = join2("FinancePoolByUser::", user_id);
    let id = ledger.link(key.as_str());
    if id.as_str().is_empty() {
        return None;
    }
    match ledger.pools.get(id.as_str()) {
        Some(pool) => if same(pool.status.as_str(), "open") {
            Some(pool.copy())
        } else {
            None
        },
        None => None,
    }
}

/// The account of a user with at most `limit` transactions and payouts.
pub fn financial_account_snapshot(ledger: &Ledger, user_id: &str, limit: usize) -> (r: Result<
    Account,
    String,
>)
    ensures
        match r {
            Ok(account) => snapshot_refusal(wallet_of(ledger@.wallets, user_id@)) is None && account@
                == account_shown(ledger@, user_id@, limit as int),
            Err(e) => snapshot_refusal(wallet_of(ledger@.wallets, user_id@)) == Some(e@),
        },
{
    let w = wallet_in(&ledger.wallets, user_id);
    match refuse_snapshot(&w) {
        Some(e) => {
            return Err(e);
        },
        None => {},
    }
    let account = Account {
        user_id: user_id.to_owned(),
        available: match w.balance {
            Some(b) => b,
            None => 0,
        },
        held: w.held,
        debt: w.debt,
        withdrawable: w.withdrawable,
        payout_held: w.payout_held,
        earned: w.earned,
        spent: w.spent,
        active_holds: active_holds(ledger, user_id),
        pool: open_pool_of(ledger, user_id),
        transactions: transactions(ledger, user_id, limit),
        payouts: finance_payout_records(ledger, user_id, limit),
    };
    Ok(account)
}

/// A request to read a financial account; an empty user is the caller.
pub struct GetFinancialAccountInput {
    pub user_id: String,
    pub limit: i64,
}

/// Whose account a request means.
pub open spec fn account_owner(caller: Seq<char>, input: GetFinancialAccountInput) -> Seq<char> {
    if input.user_id@.len() == 0 {
        caller
    } else {
        input.user_id@
    }
}

/// A page size: `usual` where none is asked for, and at most `most`.
pub open spec fn page_size(asked: i64, usual: int, most: int) -> int {
    if asked <= 0 {
        usual
    } else if asked <= most {
        asked as int
    } else {
        most
    }
}

/// What reading a financial account answers. Users read their own, and the platform owner
/// reads any.
pub open spec fn account_read(
    books: Books,
    caller: Seq<char>,
    input: GetFinancialAccountInput,
) -> Result<AccountState, Seq<char>> {
    let user = account_owner(caller, input);
    if !is_finance_id(user) {
        Err("invalid financial account id"@)
    } else if user != caller && caller != platform_owner() {
        Err("access denied"@)
    } else {
        match snapshot_refusal(wallet_of(books.wallets, user)) {
            Some(e) => Err(e),
            None => Ok(account_shown(books, user, page_size(input.limit, 50, 100))),
        }
    }
}

/// A page size.
pub fn page_limit(asked: i64, usual: usize, most: usize) -> (r: usize)
    requires
        most <= 1_000_000,
    ensures
        r == page_size(asked, usual as int, most as int),
{
    if asked <= 0 {
        usual
    } else if asked <= most as i64 {
        asked as usize
    } else {
        most
    }
}

/// Read a financial account.
pub fn get_financial_account(
    ledger: &Ledger,
    caller: &str,
    input: &GetFinancialAccountInput,
) -> (r: Result<Account, String>)
    ensures
        match r {
            Ok(account) => account_read(ledger@, caller@, *input) == Ok::<AccountState, Seq<char>>(
                account@,
            ),
            Err(e) => account_read(ledger@, caller@, *input) == Err::<AccountState, Seq<char>>(e@),
        },
{
    let user: &str = if input.user_id.as_str().is_empty() {
        caller
    } else {
        input.user_id.as_str()
    };
    if !valid_finance_id(user) {
        return Err("invalid financial account id".to_owned());
    }
    if !same(user, caller) && !same(caller, "1@global") {
        return Err("access denied".to_owned());
    }
    financial_account_snapshot(ledger, user, page_limit(input.limit, 50, 100))
}

} // verus!
