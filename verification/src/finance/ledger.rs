//! The ledger: wallets and the finance records, and what every action reads and writes.
use vstd::prelude::*;

use crate::decimal::{padded, read_i64, parse_i64, write_padded};
use crate::finance::ids::{beneficiaries_of, copy_beneficiaries, Beneficiary, HoldBeneficiaryInput};
use crate::json::{Json, Tree};
use crate::table::{law_lookup_after_store, lookup, stored, Rows, Table};
use crate::text::{join4, texts};

verus! {

broadcast use {vstd::string::group_string_axioms, law_lookup_after_store};

// ---------------------------------------------------------------- wallets

/// The money of one user.
///
/// `balance` is the user's account, which a missing creature does not have. Each of the
/// other figures is a stored counter; a negative one is a counter that cannot be read.
pub struct Wallet {
    pub balance: Option<i64>,
    pub held: i64,
    pub debt: i64,
    pub withdrawable: i64,
    pub payout_held: i64,
    pub earned: i64,
    pub spent: i64,
}

impl Clone for Wallet {
    fn clone(&self) -> (r: Self)
        ensures
            r == *self,
    {
        *self
    }
}

impl Copy for Wallet {

}

impl View for Wallet {
    type V = Wallet;

    open spec fn view(&self) -> Wallet {
        *self
    }
}

/// The wallet of a user that the ledger knows nothing of.
pub open spec fn no_wallet() -> Wallet {
    Wallet {
        balance: None,
        held: 0,
        debt: 0,
        withdrawable: 0,
        payout_held: 0,
        earned: 0,
        spent: 0,
    }
}

/// The wallet of a user.
pub open spec fn wallet_of(wallets: Rows<Wallet>, user: Seq<char>) -> Wallet {
    match lookup(wallets, user) {
        Some(w) => w,
        None => no_wallet(),
    }
}

/// The wallet of a user.
pub fn wallet_in(wallets: &Table<Wallet>, user: &str) -> (r: Wallet)
    ensures
        r == wallet_of(wallets@, user@),
{
    match wallets.get(user) {
        Some(w) => *w,
        None => Wallet {
            balance: None,
            held: 0,
            debt: 0,
            withdrawable: 0,
            payout_held: 0,
            earned: 0,
            spent: 0,
        },
    }
}

/// What a stored counter reads as: zero where nothing is stored, and a negative number
/// where the text is no number.
pub open spec fn counter_value(raw: Seq<char>) -> i64 {
    if raw.len() == 0 {
        0
    } else {
        match read_i64(raw) {
            Some(v) => v,
            None => -1i64,
        }
    }
}

/// Read a stored counter.
pub fn finance_counter(raw: &str) -> (r: i64)
    ensures
        r == counter_value(raw@),
{
    if raw.is_empty() {
        0
    } else {
        match parse_i64(raw) {
            Some(v) => v,
            None => -1,
        }
    }
}

// ---------------------------------------------------------------- records

/// One line of a settlement: who earns how much, in which role, and for what.
pub struct SettlementLine {
    pub user_id: String,
    pub role: String,
    pub amount: i64,
    pub source_ref: String,
}

/// A settlement line, as texts and a number.
pub struct Line {
    pub user_id: Seq<char>,
    pub role: Seq<char>,
    pub amount: int,
    pub source_ref: Seq<char>,
}

impl View for SettlementLine {
    type V = Line;

    open spec fn view(&self) -> Line {
        Line {
            user_id: self.user_id@,
            role: self.role@,
            amount: self.amount as int,
            source_ref: self.source_ref@,
        }
    }
}

/// The lines of a list.
pub open spec fn lines_of(list: Seq<SettlementLine>) -> Seq<Line> {
    list.map_values(|l: SettlementLine| l@)
}

/// A copy of a list of lines.
pub fn copy_lines(list: &Vec<SettlementLine>) -> (r: Vec<SettlementLine>)
    ensures
        lines_of(r@) == lines_of(list@),
{
    let mut out: Vec<SettlementLine> = Vec::new();
    let mut i: usize = 0;
    while i < list.len()
        invariant
            i <= list@.len(),
            out@.len() == i,
            forall|j: int| 0 <= j < i ==> (#[trigger] out@[j])@ == list@[j]@,
        decreases list.len() - i,
    {
        out.push(
            SettlementLine {
                user_id: list[i].user_id.clone(),
                role: list[i].role.clone(),
                amount: list[i].amount,
                source_ref: list[i].source_ref.clone(),
            },
        );
        i = i + 1;
    }
    assert(lines_of(out@) =~= lines_of(list@));
    out
}

/// The plan in an optional list of beneficiaries.
pub open spec fn plan_in(plan: Option<Vec<HoldBeneficiaryInput>>) -> Option<Seq<Beneficiary>> {
    match plan {
        Some(list) => Some(beneficiaries_of(list@)),
        None => None,
    }
}

fn copy_plan(plan: &Option<Vec<HoldBeneficiaryInput>>) -> (r: Option<Vec<HoldBeneficiaryInput>>)
    ensures
        plan_in(r) == plan_in(*plan),
{
    match plan {
        Some(list) => Some(copy_beneficiaries(list)),
        None => None,
    }
}

/// A hold: funds of a payer set aside for one run.
pub struct Hold {
    pub payer_user_id: String,
    pub quote_id: String,
    pub pricing_version: String,
    pub max_amount: i64,
    pub remaining_amount: i64,
    pub withdrawable_amount: i64,
    pub meter_program_id: String,
    pub settlement_authority: String,
    pub expires_at: i64,
    pub project_id: String,
    pub context_hash: String,
    pub beneficiary_plan_hash: String,
    pub beneficiaries: Option<Vec<HoldBeneficiaryInput>>,
    pub request_hash: String,
    pub status: String,
    pub created_at: i64,
    pub run_id: String,
    pub started_at: i64,
    pub actual_amount: i64,
    pub refunded_amount: i64,
    pub withdrawable_refunded_amount: i64,
    pub withdrawable_spent_amount: i64,
    pub settlement_id: String,
    pub usage_hash: String,
    pub settlement_lines: Vec<SettlementLine>,
    pub finalized_at: i64,
    pub release_id: String,
    pub release_reason: String,
}

/// A hold, as texts and numbers.
pub struct HoldState {
    pub payer_user_id: Seq<char>,
    pub quote_id: Seq<char>,
    pub pricing_version: Seq<char>,
    pub max_amount: int,
    pub remaining_amount: int,
    pub withdrawable_amount: int,
    pub meter_program_id: Seq<char>,
    pub settlement_authority: Seq<char>,
    pub expires_at: int,
    pub project_id: Seq<char>,
    pub context_hash: Seq<char>,
    pub beneficiary_plan_hash: Seq<char>,
    pub beneficiaries: Option<Seq<Beneficiary>>,
    pub request_hash: Seq<char>,
    pub status: Seq<char>,
    pub created_at: int,
    pub run_id: Seq<char>,
    pub started_at: int,
    pub actual_amount: int,
    pub refunded_amount: int,
    pub withdrawable_refunded_amount: int,
    pub withdrawable_spent_amount: int,
    pub settlement_id: Seq<char>,
    pub usage_hash: Seq<char>,
    pub settlement_lines: Seq<Line>,
    pub finalized_at: int,
    pub release_id: Seq<char>,
    pub release_reason: Seq<char>,
}

impl View for Hold {
    type V = HoldState;

    open spec fn view(&self) -> HoldState {
        HoldState {
            payer_user_id: self.payer_user_id@,
            quote_id: self.quote_id@,
            pricing_version: self.pricing_version@,
            max_amount: self.max_amount as int,
            remaining_amount: self.remaining_amount as int,
            withdrawable_amount: self.withdrawable_amount as int,
            meter_program_id: self.meter_program_id@,
            settlement_authority: self.settlement_authority@,
            expires_at: self.expires_at as int,
            project_id: self.project_id@,
            context_hash: self.context_hash@,
            beneficiary_plan_hash: self.beneficiary_plan_hash@,
            beneficiaries: plan_in(self.beneficiaries),
            request_hash: self.request_hash@,
            status: self.status@,
            created_at: self.created_at as int,
            run_id: self.run_id@,
            started_at: self.started_at as int,
            actual_amount: self.actual_amount as int,
            refunded_amount: self.refunded_amount as int,
            withdrawable_refunded_amount: self.withdrawable_refunded_amount as int,
            withdrawable_spent_amount: self.withdrawable_spent_amount as int,
            settlement_id: self.settlement_id@,
            usage_hash: self.usage_hash@,
            settlement_lines: lines_of(self.settlement_lines@),
            finalized_at: self.finalized_at as int,
            release_id: self.release_id@,
            release_reason: self.release_reason@,
        }
    }
}

impl Hold {
    /// A copy of the record.
    pub fn copy(&self) -> (r: Self)
        ensures
            r@ == self@,
    {
        Hold {
            payer_user_id: self.payer_user_id.clone(),
            quote_id: self.quote_id.clone(),
            pricing_version: self.pricing_version.clone(),
            max_amount: self.max_amount,
            remaining_amount: self.remaining_amount,
            withdrawable_amount: self.withdrawable_amount,
            meter_program_id: self.meter_program_id.clone(),
            settlement_authority: self.settlement_authority.clone(),
            expires_at: self.expires_at,
            project_id: self.project_id.clone(),
            context_hash: self.context_hash.clone(),
            beneficiary_plan_hash: self.beneficiary_plan_hash.clone(),
            beneficiaries: copy_plan(&self.beneficiaries),
            request_hash: self.request_hash.clone(),
            status: self.status.clone(),
            created_at: self.created_at,
            run_id: self.run_id.clone(),
            started_at: self.started_at,
            actual_amount: self.actual_amount,
            refunded_amount: self.refunded_amount,
            withdrawable_refunded_amount: self.withdrawable_refunded_amount,
            withdrawable_spent_amount: self.withdrawable_spent_amount,
            settlement_id: self.settlement_id.clone(),
            usage_hash: self.usage_hash.clone(),
            settlement_lines: copy_lines(&self.settlement_lines),
            finalized_at: self.finalized_at,
            release_id: self.release_id.clone(),
            release_reason: self.release_reason.clone(),
        }
    }
}

/// A pool: a standing hold that many runs draw down together.
pub struct Pool {
    pub payer_user_id: String,
    pub max_amount: i64,
    pub remaining: i64,
    pub reserved: i64,
    pub spent: i64,
    pub refunded: i64,
    pub withdrawable_amount: i64,
    pub settlement_authority: String,
    pub meter_program_id: String,
    pub status: String,
    pub expires_at: i64,
    pub idempotency_key: String,
    pub created_at: i64,
    pub updated_at: i64,
    pub close_id: String,
    pub close_reason: String,
}

/// A pool, as texts and numbers.
pub struct PoolState {
    pub payer_user_id: Seq<char>,
    pub max_amount: int,
    pub remaining: int,
    pub reserved: int,
    pub spent: int,
    pub refunded: int,
    pub withdrawable_amount: int,
    pub settlement_authority: Seq<char>,
    pub meter_program_id: Seq<char>,
    pub status: Seq<char>,
    pub expires_at: int,
    pub idempotency_key: Seq<char>,
    pub created_at: int,
    pub updated_at: int,
    pub close_id: Seq<char>,
    pub close_reason: Seq<char>,
}

impl View for Pool {
    type V = PoolState;

    open spec fn view(&self) -> PoolState {
        PoolState {
            payer_user_id: self.payer_user_id@,
            max_amount: self.max_amount as int,
            remaining: self.remaining as int,
            reserved: self.reserved as int,
            spent: self.spent as int,
            refunded: self.refunded as int,
            withdrawable_amount: self.withdrawable_amount as int,
            settlement_authority: self.settlement_authority@,
            meter_program_id: self.meter_program_id@,
            status: self.status@,
            expires_at: self.expires_at as int,
            idempotency_key: self.idempotency_key@,
            created_at: self.created_at as int,
            updated_at: self.updated_at as int,
            close_id: self.close_id@,
            close_reason: self.close_reason@,
        }
    }
}

impl Pool {
    /// A copy of the record.
    pub fn copy(&self) -> (r: Self)
        ensures
            r@ == self@,
    {
        Pool {
            payer_user_id: self.payer_user_id.clone(),
            max_amount: self.max_amount,
            remaining: self.remaining,
            reserved: self.reserved,
            spent: self.spent,
            refunded: self.refunded,
            withdrawable_amount: self.withdrawable_amount,
            settlement_authority: self.settlement_authority.clone(),
            meter_program_id: self.meter_program_id.clone(),
            status: self.status.clone(),
            expires_at: self.expires_at,
            idempotency_key: self.idempotency_key.clone(),
            created_at: self.created_at,
            updated_at: self.updated_at,
            close_id: self.close_id.clone(),
            close_reason: self.close_reason.clone(),
        }
    }
}

/// The slice of a pool that one run has reserved.
pub struct Reservation {
    pub pool_id: String,
    pub payer_user_id: String,
    pub quote_id: String,
    pub amount: i64,
    pub status: String,
    pub created_at: i64,
    pub settlement_id: String,
    pub actual_amount: i64,
    pub usage_hash: String,
    pub settlement_lines: Vec<SettlementLine>,
    pub settled_at: i64,
    pub release_id: String,
    pub release_reason: String,
    pub released_at: i64,
}

/// A reservation, as texts and numbers.
pub struct ReservationState {
    pub pool_id: Seq<char>,
    pub payer_user_id: Seq<char>,
    pub quote_id: Seq<char>,
    pub amount: int,
    pub status: Seq<char>,
    pub created_at: int,
    pub settlement_id: Seq<char>,
    pub actual_amount: int,
    pub usage_hash: Seq<char>,
    pub settlement_lines: Seq<Line>,
    pub settled_at: int,
    pub release_id: Seq<char>,
    pub release_reason: Seq<char>,
    pub released_at: int,
}

impl View for Reservation {
    type V = ReservationState;

    open spec fn view(&self) -> ReservationState {
        ReservationState {
            pool_id: self.pool_id@,
            payer_user_id: self.payer_user_id@,
            quote_id: self.quote_id@,
            amount: self.amount as int,
            status: self.status@,
            created_at: self.created_at as int,
            settlement_id: self.settlement_id@,
            actual_amount: self.actual_amount as int,
            usage_hash: self.usage_hash@,
            settlement_lines: lines_of(self.settlement_lines@),
            settled_at: self.settled_at as int,
            release_id: self.release_id@,
            release_reason: self.release_reason@,
            released_at: self.released_at as int,
        }
    }
}

impl Reservation {
    /// A copy of the record.
    pub fn copy(&self) -> (r: Self)
        ensures
            r@ == self@,
    {
        Reservation {
            pool_id: self.pool_id.clone(),
            payer_user_id: self.payer_user_id.clone(),
            quote_id: self.quote_id.clone(),
            amount: self.amount,
            status: self.status.clone(),
            created_at: self.created_at,
            settlement_id: self.settlement_id.clone(),
            actual_amount: self.actual_amount,
            usage_hash: self.usage_hash.clone(),
            settlement_lines: copy_lines(&self.settlement_lines),
            settled_at: self.settled_at,
            release_id: self.release_id.clone(),
            release_reason: self.release_reason.clone(),
            released_at: self.released_at,
        }
    }
}

/// What live debits have charged for one run so far.
pub struct LiveDebit {
    pub pool_id: String,
    pub payer_user_id: String,
    pub quote_id: String,
    pub created_at: i64,
    pub charged_total: i64,
    pub credits: Table<i64>,
    pub last_debit_id: String,
    pub last_usage_hash: String,
    pub updated_at: i64,
}

/// Live debits, as texts and numbers.
pub struct LiveDebitState {
    pub pool_id: Seq<char>,
    pub payer_user_id: Seq<char>,
    pub quote_id: Seq<char>,
    pub created_at: int,
    pub charged_total: int,
    pub credits: Rows<i64>,
    pub last_debit_id: Seq<char>,
    pub last_usage_hash: Seq<char>,
    pub updated_at: int,
}

impl View for LiveDebit {
    type V = LiveDebitState;

    open spec fn view(&self) -> LiveDebitState {
        LiveDebitState {
            pool_id: self.pool_id@,
            payer_user_id: self.payer_user_id@,
            quote_id: self.quote_id@,
            created_at: self.created_at as int,
            charged_total: self.charged_total as int,
            credits: self.credits@,
            last_debit_id: self.last_debit_id@,
            last_usage_hash: self.last_usage_hash@,
            updated_at: self.updated_at as int,
        }
    }
}

impl LiveDebit {
    /// A copy of the record.
    pub fn copy(&self) -> (r: Self)
        ensures
            r@ == self@,
    {
        LiveDebit {
            pool_id: self.pool_id.clone(),
            payer_user_id: self.payer_user_id.clone(),
            quote_id: self.quote_id.clone(),
            created_at: self.created_at,
            charged_total: self.charged_total,
            credits: self.credits.copy(),
            last_debit_id: self.last_debit_id.clone(),
            last_usage_hash: self.last_usage_hash.clone(),
            updated_at: self.updated_at,
        }
    }
}

/// Earnings on their way out of the node.
pub struct Payout {
    pub request_id: String,
    pub user_id: String,
    pub amount: i64,
    pub destination_ref: String,
    pub status: String,
    pub created_at: i64,
    pub request_hash: String,
    pub provider_reference: String,
    pub reason: String,
    pub resolution_id: String,
    pub resolved_at: i64,
}

/// A payout, as texts and numbers.
pub struct PayoutState {
    pub request_id: Seq<char>,
    pub user_id: Seq<char>,
    pub amount: int,
    pub destination_ref: Seq<char>,
    pub status: Seq<char>,
    pub created_at: int,
    pub request_hash: Seq<char>,
    pub provider_reference: Seq<char>,
    pub reason: Seq<char>,
    pub resolution_id: Seq<char>,
    pub resolved_at: int,
}

impl View for Payout {
    type V = PayoutState;

    open spec fn view(&self) -> PayoutState {
        PayoutState {
            request_id: self.request_id@,
            user_id: self.user_id@,
            amount: self.amount as int,
            destination_ref: self.destination_ref@,
            status: self.status@,
            created_at: self.created_at as int,
            request_hash: self.request_hash@,
            provider_reference: self.provider_reference@,
            reason: self.reason@,
            resolution_id: self.resolution_id@,
            resolved_at: self.resolved_at as int,
        }
    }
}

impl Payout {
    /// A copy of the record.
    pub fn copy(&self) -> (r: Self)
        ensures
            r@ == self@,
    {
        Payout {
            request_id: self.request_id.clone(),
            user_id: self.user_id.clone(),
            amount: self.amount,
            destination_ref: self.destination_ref.clone(),
            status: self.status.clone(),
            created_at: self.created_at,
            request_hash: self.request_hash.clone(),
            provider_reference: self.provider_reference.clone(),
            reason: self.reason.clone(),
            resolution_id: self.resolution_id.clone(),
            resolved_at: self.resolved_at,
        }
    }
}
/// One entry of the journal: what happened, to which record, and what is said of it.
pub struct JournalEntry {
    pub kind: String,
    pub hold_id: String,
    pub payer_user_id: String,
    pub created_at: i64,
    pub payload: Json,
}

/// A journal entry, as texts and numbers.
pub struct Entry {
    pub kind: Seq<char>,
    pub hold_id: Seq<char>,
    pub payer_user_id: Seq<char>,
    pub created_at: int,
    pub payload: Tree,
}

impl View for JournalEntry {
    type V = Entry;

    open spec fn view(&self) -> Entry {
        Entry {
            kind: self.kind@,
            hold_id: self.hold_id@,
            payer_user_id: self.payer_user_id@,
            created_at: self.created_at as int,
            payload: self.payload@,
        }
    }
}

/// The finance state that an action works on.
///
/// `links` holds the idempotency markers and the indexes under their full keys.
pub struct Ledger {
    pub wallets: Table<Wallet>,
    pub holds: Table<Hold>,
    pub pools: Table<Pool>,
    pub reservations: Table<Reservation>,
    pub live_debits: Table<LiveDebit>,
    pub payouts: Table<Payout>,
    pub budgets: Table<Json>,
    pub quotes: Table<Json>,
    pub locks: Table<Json>,
    pub links: Table<String>,
    pub journal: Table<JournalEntry>,
}

/// The finance state, as rows of records.
pub struct Books {
    pub wallets: Rows<Wallet>,
    pub holds: Rows<HoldState>,
    pub pools: Rows<PoolState>,
    pub reservations: Rows<ReservationState>,
    pub live_debits: Rows<LiveDebitState>,
    pub payouts: Rows<PayoutState>,
    pub budgets: Rows<Tree>,
    pub quotes: Rows<Tree>,
    pub locks: Rows<Tree>,
    pub links: Rows<Seq<char>>,
    pub journal: Rows<Entry>,
}

impl View for Ledger {
    type V = Books;

    open spec fn view(&self) -> Books {
        Books {
            wallets: self.wallets@,
            holds: self.holds@,
            pools: self.pools@,
            reservations: self.reservations@,
            live_debits: self.live_debits@,
            payouts: self.payouts@,
            budgets: self.budgets@,
            quotes: self.quotes@,
            locks: self.locks@,
            links: self.links@,
            journal: self.journal@,
        }
    }
}

/// The text of a link; empty where it is not set.
pub open spec fn link_of(links: Rows<Seq<char>>, key: Seq<char>) -> Seq<char> {
    match lookup(links, key) {
        Some(text) => text,
        None => Seq::empty(),
    }
}

/// The index key under which a user finds a journal entry.
pub open spec fn journal_index_key(user: Seq<char>, now: int, id: Seq<char>) -> Seq<char> {
    "FinanceJournalByUser::"@ + user + "::"@ + padded(now) + "::"@ + id
}

/// The links with an index entry for each participant that has a name.
pub open spec fn indexed(
    links: Rows<Seq<char>>,
    participants: Seq<Seq<char>>,
    now: int,
    id: Seq<char>,
) -> Rows<Seq<char>>
    decreases participants.len(),
{
    if participants.len() == 0 {
        links
    } else {
        let before = indexed(links, participants.drop_last(), now, id);
        if participants.last().len() == 0 {
            before
        } else {
            stored(before, journal_index_key(participants.last(), now, id), id)
        }
    }
}

/// The books with one more journal entry, indexed for its participants.
pub open spec fn journaled(
    books: Books,
    id: Seq<char>,
    entry: Entry,
    participants: Seq<Seq<char>>,
) -> Books {
    Books {
        journal: stored(books.journal, id, entry),
        links: indexed(books.links, participants, entry.created_at, id),
        ..books
    }
}

impl Ledger {
    /// An empty ledger.
    pub fn new() -> (r: Self)
        ensures
            r@.wallets.len() == 0,
            r@.holds.len() == 0,
            r@.pools.len() == 0,
            r@.reservations.len() == 0,
            r@.live_debits.len() == 0,
            r@.payouts.len() == 0,
            r@.budgets.len() == 0,
            r@.quotes.len() == 0,
            r@.locks.len() == 0,
            r@.links.len() == 0,
            r@.journal.len() == 0,
    {
        Ledger {
            wallets: Table::new(),
            holds: Table::new(),
            pools: Table::new(),
            reservations: Table::new(),
            live_debits: Table::new(),
            payouts: Table::new(),
            budgets: Table::new(),
            quotes: Table::new(),
            locks: Table::new(),
            links: Table::new(),
            journal: Table::new(),
        }
    }

    /// The text of a link; empty where it is not set.
    pub fn link(&self, key: &str) -> (r: String)
        ensures
            r@ == link_of(self@.links, key@),
    {
        match self.links.get(key) {
            Some(text) => text.clone(),
            None => {
                let empty = String::new();
                assert(empty@ =~= Seq::<char>::empty());
                empty
            },
        }
    }

    /// Write a journal entry and index it for each participant that has a name.
    pub fn write_finance_journal(
        &mut self,
        journal_id: &str,
        entry: JournalEntry,
        participants: &Vec<String>,
    )
        ensures
            final(self)@ == journaled(old(self)@, journal_id@, entry@, texts(participants@)),
    {
        let now: i64 = entry.created_at;
        let ghost written = entry@;
        let ghost before = self@;
        self.journal.put(journal_id, entry);
        let stamp = write_padded(now);
        let ghost list = texts(participants@);
        assert(list.subrange(0, 0) =~= Seq::empty());
        let mut i: usize = 0;
        while i < participants.len()
            invariant
                i <= participants@.len(),
                list == texts(participants@),
                stamp@ == padded(now as int),
                self@ == (Books {
                    journal: stored(before.journal, journal_id@, written),
                    links: indexed(
                        before.links,
                        list.subrange(0, i as int),
                        now as int,
                        journal_id@,
                    ),
                    ..before
                }),
            decreases participants.len() - i,
        {
            let ghost upto = list.subrange(0, i + 1);
            assert(upto.drop_last() =~= list.subrange(0, i as int));
            assert(upto.last() == participants@[i as int]@);
            let user = participants[i].as_str();
            if !user.is_empty() {
                let head = join4("FinanceJournalByUser::", user, "::", stamp.as_str());
                let key = crate::text::join3(head.as_str(), "::", journal_id);
                assert(key@ == journal_index_key(user@, now as int, journal_id@));
                self.links.put(key.as_str(), journal_id.to_owned());
            }
            i = i + 1;
        }
        assert(list.subrange(0, list.len() as int) =~= list);
    }
}

} // verus!
