//! Signalling into a store, replaying what was signalled, and changing who may do either.
use vstd::prelude::*;

use crate::creature::directory::{Creature, CreatureRecord};
use crate::finance::ledger::link_of;
use crate::json::{items_of, lemma_array, no_fields, object, Json, Tree};
use crate::packets::stores::{GetAccessInput, HistoryInput, SetAccessInput, SignalInput};
use crate::store::membership::{
    members, members_of, set_permissions, signal_recorded, store_or_empty, Stores, StoresState,
};
use crate::store::permissions::{
    access_key, encoded_permissions, law_recorded_permissions_read_back, named_permissions,
    parsed_permissions, read_permissions, StorePermissions,
};
use crate::table::{law_lookup_after_store, stored};
use crate::text::{copy_texts, same, texts};

verus! {

broadcast use {vstd::string::group_string_axioms, law_lookup_after_store};

/// The permission that a refused member lacks.
#[derive(PartialEq, Eq, Structural, Clone, Copy, Debug)]
pub enum Denied {
    Signal,
    Read,
    Manage,
}

/// What a member may do in a store.
pub open spec fn may(state: StoresState, store: Seq<char>, member: Seq<char>) -> StorePermissions {
    parsed_permissions(link_of(state.links, access_key(store, member)))
}

/// What one who may not signal is told.
pub fn signal_refusal() -> (r: String)
    ensures
        r@ == "not allowed to signal in this store"@,
{
    "not allowed to signal in this store".to_owned()
}

// ---------------------------------------------------------------- signals

/// Whether a signal is kept. The store decides: only a single signal can be kept out of
/// its history, as one that means nothing after delivery.
pub open spec fn signal_kept(
    state: StoresState,
    sender: Seq<char>,
    store: Seq<char>,
    temp: bool,
) -> Result<bool, Denied> {
    if !may(state, store, sender).signal {
        Err(Denied::Signal)
    } else {
        Ok(store_or_empty(state, store).persistent_history && !temp)
    }
}

/// Whether a signal of a sender is kept in the history of its store.
pub fn keeps_signal(stores: &Stores, sender: &str, input: &SignalInput) -> (r: Result<
    bool,
    Denied,
>)
    ensures
        r == signal_kept(stores@, sender@, input.store_id@, input.temp),
{
    let may = read_permissions(&stores.links, input.store_id.as_str(), sender);
    if !may.signal {
        return Err(Denied::Signal);
    }
    let record = stores.store_or_empty(input.store_id.as_str());
    Ok(record.persistent_history && !input.temp)
}

/// What the log and the clock say of a signal: the id of its row, where it is kept, its
/// time, and its tags as they are recorded.
pub struct SignalFacts {
    pub row_id: String,
    pub time: i64,
    pub tags: Vec<String>,
}

/// What the log of signals is given of one that is kept.
pub struct LogRow {
    pub store_id: String,
    pub sender_id: String,
    pub data: String,
    pub tags: Vec<String>,
    pub time: i64,
}

/// What the log of signals is given, as texts.
pub struct LoggedState {
    pub store_id: Seq<char>,
    pub sender_id: Seq<char>,
    pub data: Seq<char>,
    pub tags: Seq<Seq<char>>,
    pub time: i64,
}

impl View for LogRow {
    type V = LoggedState;

    open spec fn view(&self) -> LoggedState {
        LoggedState {
            store_id: self.store_id@,
            sender_id: self.sender_id@,
            data: self.data@,
            tags: texts(self.tags@),
            time: self.time,
        }
    }
}

/// What the log of signals is given of a signal; nothing where it is not kept.
pub open spec fn signal_logged(
    state: StoresState,
    sender: Seq<char>,
    input: SignalInput,
    tags: Seq<Seq<char>>,
    time: i64,
) -> Result<Option<LoggedState>, Denied> {
    match signal_kept(state, sender, input.store_id@, input.temp) {
        Err(e) => Err(e),
        Ok(false) => Ok(None),
        Ok(true) => Ok(
            Some(
                LoggedState {
                    store_id: input.store_id@,
                    sender_id: sender,
                    data: input.data@,
                    tags,
                    time,
                },
            ),
        ),
    }
}

/// What the log of signals is given of a signal of a sender.
pub fn log_row(
    stores: &Stores,
    sender: &str,
    input: &SignalInput,
    tags: &Vec<String>,
    time: i64,
) -> (r: Result<Option<LogRow>, Denied>)
    ensures
        match r {
            Ok(Some(row)) => signal_logged(stores@, sender@, *input, texts(tags@), time) == Ok::<
                Option<LoggedState>,
                Denied,
            >(Some(row@)),
            Ok(None) => signal_logged(stores@, sender@, *input, texts(tags@), time) == Ok::<
                Option<LoggedState>,
                Denied,
            >(None),
            Err(e) => signal_logged(stores@, sender@, *input, texts(tags@), time) == Err::<
                Option<LoggedState>,
                Denied,
            >(e),
        },
{
    match keeps_signal(stores, sender, input) {
        Err(e) => Err(e),
        Ok(false) => Ok(None),
        Ok(true) => Ok(
            Some(
                LogRow {
                    store_id: input.store_id.clone(),
                    sender_id: sender.to_owned(),
                    data: input.data.clone(),
                    tags: copy_texts(tags),
                    time,
                },
            ),
        ),
    }
}

/// A signal as it goes out to the members of a store, who recognise it by its row when they
/// read it again. The sender's balance does not go out with it.
pub struct SentSignal {
    pub action: String,
    pub sender: CreatureRecord,
    pub sender_balance: i64,
    pub store_id: String,
    pub data: String,
    pub temp: bool,
    pub tags: Vec<String>,
    pub signal_id: String,
    pub time: i64,
    pub persisted: bool,
}

/// A signal as it goes out, as texts.
pub struct SentState {
    pub action: Seq<char>,
    pub sender: Creature,
    pub sender_balance: i64,
    pub store_id: Seq<char>,
    pub data: Seq<char>,
    pub temp: bool,
    pub tags: Seq<Seq<char>>,
    pub signal_id: Seq<char>,
    pub time: i64,
    pub persisted: bool,
}

impl View for SentSignal {
    type V = SentState;

    open spec fn view(&self) -> SentState {
        SentState {
            action: self.action@,
            sender: self.sender@,
            sender_balance: self.sender_balance,
            store_id: self.store_id@,
            data: self.data@,
            temp: self.temp,
            tags: texts(self.tags@),
            signal_id: self.signal_id@,
            time: self.time,
            persisted: self.persisted,
        }
    }
}

/// The signal that goes out.
pub open spec fn sent_signal(
    input: SignalInput,
    sender: Creature,
    facts: SignalFacts,
    persisted: bool,
) -> SentState {
    SentState {
        action: if input.typ@.len() == 0 {
            "broadcast"@
        } else {
            input.typ@
        },
        sender,
        sender_balance: 0,
        store_id: input.store_id@,
        data: input.data@,
        temp: input.temp,
        tags: texts(facts.tags@),
        signal_id: if persisted {
            facts.row_id@
        } else {
            Seq::empty()
        },
        time: facts.time,
        persisted,
    }
}

/// The stores after a signal, and the signal that goes out.
pub open spec fn signalled(
    state: StoresState,
    sender: Creature,
    input: SignalInput,
    facts: SignalFacts,
) -> Result<(StoresState, SentState), Denied> {
    match signal_kept(state, sender.id, input.store_id@, input.temp) {
        Err(e) => Err(e),
        Ok(persisted) => Ok(
            (
                if persisted {
                    signal_recorded(state, input.store_id@)
                } else {
                    state
                },
                sent_signal(input, sender, facts, persisted),
            ),
        ),
    }
}

/// Send a signal into a store.
pub fn signal(
    stores: &mut Stores,
    sender: &CreatureRecord,
    input: &SignalInput,
    facts: &SignalFacts,
) -> (r: Result<SentSignal, Denied>)
    requires
        store_or_empty(old(stores)@, input.store_id@).signal_count < i64::MAX,
    ensures
        match r {
            Ok(sent) => signalled(old(stores)@, sender@, *input, *facts) == Ok::<
                (StoresState, SentState),
                Denied,
            >((final(stores)@, sent@)),
            Err(e) => final(stores)@ == old(stores)@ && signalled(
                old(stores)@,
                sender@,
                *input,
                *facts,
            ) == Err::<(StoresState, SentState), Denied>(e),
        },
{
    let persisted: bool = match keeps_signal(&*stores, sender.id.as_str(), input) {
        Ok(persisted) => persisted,
        Err(e) => {
            return Err(e);
        },
    };
    if persisted {
        stores.record_signal(input.store_id.as_str());
    }
    let action: String = if input.typ.as_str().is_empty() {
        "broadcast".to_owned()
    } else {
        input.typ.clone()
    };
    let signal_id: String = if persisted {
        facts.row_id.clone()
    } else {
        let empty = String::new();
        assert(empty@ =~= Seq::<char>::empty());
        empty
    };
    Ok(
        SentSignal {
            action,
            sender: sender.copy(),
            sender_balance: 0,
            store_id: input.store_id.clone(),
            data: input.data.clone(),
            temp: input.temp,
            tags: copy_texts(&facts.tags),
            signal_id,
            time: facts.time,
            persisted,
        },
    )
}

/// The texts of a list but for one.
pub open spec fn all_but(list: Seq<Seq<char>>, one: Seq<char>) -> Seq<Seq<char>>
    decreases list.len(),
{
    if list.len() == 0 {
        Seq::empty()
    } else if list.last() == one {
        all_but(list.drop_last(), one)
    } else {
        all_but(list.drop_last(), one).push(list.last())
    }
}

/// Whom a signal of a sender goes out to.
pub open spec fn reached(state: StoresState, store: Seq<char>, sender: Seq<char>) -> Seq<Seq<char>> {
    all_but(members_of(state.links, store), sender)
}

/// Whom a signal goes out to: every member of the store but its sender, as the membership is
/// recorded at that moment.
pub fn fan_out(stores: &Stores, store: &str, sender: &str) -> (r: Vec<String>)
    ensures
        texts(r@) == all_but(members_of(stores@.links, store@), sender@),
        texts(r@) == reached(stores@, store@, sender@),
{
    let list = members(&stores.links, store);
    let ghost all = members_of(stores@.links, store@);
    let mut out: Vec<String> = Vec::new();
    let mut i: usize = 0;
    assert(texts(out@) =~= Seq::empty());
    assert(all.subrange(0, 0) =~= Seq::empty());
    while i < list.len()
        invariant
            i <= list@.len(),
            all == texts(list@),
            texts(out@) == all_but(all.subrange(0, i as int), sender@),
        decreases list.len() - i,
    {
        let ghost upto = all.subrange(0, i + 1);
        assert(upto.drop_last() =~= all.subrange(0, i as int));
        assert(upto.last() == list@[i as int]@);
        if !same(list[i].as_str(), sender) {
            let ghost before = texts(out@);
            out.push(list[i].clone());
            assert(texts(out@) =~= before.push(list@[i as int]@));
        }
        i = i + 1;
    }
    assert(all.subrange(0, all.len() as int) =~= all);
    out
}

/// A list of texts as a document.
pub open spec fn text_items(list: Seq<Seq<char>>) -> Tree {
    Tree::Array(Seq::new(list.len(), |i: int| Tree::Text(list[i])))
}

/// A list of texts as a document.
pub fn text_array(list: &Vec<String>) -> (r: Json)
    ensures
        r@ == text_items(texts(list@)),
{
    let mut items: Vec<Json> = Vec::new();
    let mut i: usize = 0;
    while i < list.len()
        invariant
            i <= list@.len(),
            items@.len() == i,
            forall|j: int| 0 <= j < i ==> (#[trigger] items@[j])@ == Tree::Text(list@[j]@),
        decreases list@.len() - i,
    {
        items.push(Json::Text(list[i].clone()));
        i += 1;
    }
    proof {
        lemma_array(items);
        assert(items_of(items@) =~= Seq::new(
            texts(list@).len(),
            |j: int| Tree::Text(texts(list@)[j]),
        ));
    }
    Json::Array(items)
}

/// The answer to one who signalled.
pub open spec fn signal_answer(sent: SentState) -> Tree {
    no_fields().with("passed"@, Tree::Bool(true)).with("persisted"@, Tree::Bool(sent.persisted)).with(
        "signalId"@,
        Tree::Text(sent.signal_id),
    ).with("time"@, Tree::Whole(sent.time)).with("tags"@, text_items(sent.tags))
}

/// Answer one who signalled.
pub fn answer_signal(sent: &SentSignal) -> (r: Json)
    ensures
        r@ == signal_answer(sent@),
{
    object().with("passed", Json::Bool(true)).with("persisted", Json::Bool(sent.persisted)).with(
        "signalId",
        Json::Text(sent.signal_id.clone()),
    ).with("time", Json::Whole(sent.time)).with("tags", text_array(&sent.tags))
}

// ---------------------------------------------------------------- history

/// Which rows of a store's history are read.
pub struct LogQuery {
    pub tags_all: Vec<String>,
    pub tags_any: Vec<String>,
    pub before_time: i64,
    pub after_time: i64,
    pub count: i64,
}

/// How many rows a reader gets: as many as were asked for, else one page.
pub open spec fn page_count(count: i64, page: i64) -> i64 {
    if count > 0 {
        count
    } else {
        page
    }
}

/// How many rows a reader gets.
pub fn history_count(count: i64, page: i64) -> (r: i64)
    ensures
        r == page_count(count, page),
{
    if count > 0 {
        count
    } else {
        page
    }
}

/// Which rows of a store's history are read, as texts.
pub struct QueryState {
    pub tags_all: Seq<Seq<char>>,
    pub tags_any: Seq<Seq<char>>,
    pub before_time: i64,
    pub after_time: i64,
    pub count: i64,
}

impl View for LogQuery {
    type V = QueryState;

    open spec fn view(&self) -> QueryState {
        QueryState {
            tags_all: texts(self.tags_all@),
            tags_any: texts(self.tags_any@),
            before_time: self.before_time,
            after_time: self.after_time,
            count: self.count,
        }
    }
}

/// The rows that a reader of a store's history gets.
pub open spec fn history_read(
    state: StoresState,
    reader: Seq<char>,
    input: HistoryInput,
    page: i64,
) -> Result<QueryState, Denied> {
    if may(state, input.store_id@, reader).read {
        Ok(
            QueryState {
                tags_all: texts(input.tags_all@),
                tags_any: texts(input.tags_any@),
                before_time: input.before_time,
                after_time: input.after_time,
                count: page_count(input.count, page),
            },
        )
    } else {
        Err(Denied::Read)
    }
}

/// The rows that a reader of a store's history gets; `page` is the size of one page.
pub fn history(stores: &Stores, reader: &str, input: &HistoryInput, page: i64) -> (r: Result<
    LogQuery,
    Denied,
>)
    ensures
        match r {
            Ok(query) => {
                &&& may(stores@, input.store_id@, reader@).read
                &&& texts(query.tags_all@) == texts(input.tags_all@)
                &&& texts(query.tags_any@) == texts(input.tags_any@)
                &&& query.before_time == input.before_time
                &&& query.after_time == input.after_time
                &&& query.count == page_count(input.count, page)
            },
            Err(e) => e == Denied::Read && !may(stores@, input.store_id@, reader@).read,
        },
        match r {
            Ok(query) => history_read(stores@, reader@, *input, page) == Ok::<QueryState, Denied>(
                query@,
            ),
            Err(e) => history_read(stores@, reader@, *input, page) == Err::<QueryState, Denied>(e),
        },
{
    let may = read_permissions(&stores.links, input.store_id.as_str(), reader);
    if !may.read {
        return Err(Denied::Read);
    }
    Ok(
        LogQuery {
            tags_all: copy_texts(&input.tags_all),
            tags_any: copy_texts(&input.tags_any),
            before_time: input.before_time,
            after_time: input.after_time,
            count: history_count(input.count, page),
        },
    )
}

// ---------------------------------------------------------------- access

/// The stores after a manager gave a member permissions, and those permissions.
pub open spec fn access_set(
    state: StoresState,
    caller: Seq<char>,
    store: Seq<char>,
    member: Seq<char>,
    names: Seq<Seq<char>>,
) -> Result<(StoresState, StorePermissions), Denied> {
    if !may(state, store, caller).manage {
        Err(Denied::Manage)
    } else {
        let given = named_permissions(names);
        Ok(
            (
                StoresState {
                    links: stored(
                        state.links,
                        access_key(store, member),
                        encoded_permissions(given),
                    ),
                    ..state
                },
                given,
            ),
        )
    }
}

/// Give a member permissions.
pub fn set_access(stores: &mut Stores, caller: &str, input: &SetAccessInput) -> (r: Result<
    StorePermissions,
    Denied,
>)
    ensures
        match r {
            Ok(given) => access_set(
                old(stores)@,
                caller@,
                input.store_id@,
                input.member_id@,
                texts(input.permissions@),
            ) == Ok::<(StoresState, StorePermissions), Denied>((final(stores)@, given)),
            Err(e) => final(stores)@ == old(stores)@ && access_set(
                old(stores)@,
                caller@,
                input.store_id@,
                input.member_id@,
                texts(input.permissions@),
            ) == Err::<(StoresState, StorePermissions), Denied>(e),
        },
{
    let may = read_permissions(&stores.links, input.store_id.as_str(), caller);
    if !may.manage {
        return Err(Denied::Manage);
    }
    let given = StorePermissions::named(&input.permissions);
    set_permissions(
        &mut stores.links,
        input.store_id.as_str(),
        input.member_id.as_str(),
        given,
    );
    Ok(given)
}

/// Whose permissions a caller reads, and what they are. Everyone may read their own.
pub open spec fn access_shown(
    state: StoresState,
    caller: Seq<char>,
    store: Seq<char>,
    wanted: Seq<char>,
) -> Result<(Seq<char>, StorePermissions), Denied> {
    let member = if wanted.len() == 0 {
        caller
    } else {
        wanted
    };
    if member != caller && !may(state, store, caller).manage {
        Err(Denied::Manage)
    } else {
        Ok((member, may(state, store, member)))
    }
}

/// Read the permissions of a member.
pub fn get_access(stores: &Stores, caller: &str, input: &GetAccessInput) -> (r: Result<
    (String, StorePermissions),
    Denied,
>)
    ensures
        match r {
            Ok((member, permissions)) => access_shown(
                stores@,
                caller@,
                input.store_id@,
                input.member_id@,
            ) == Ok::<(Seq<char>, StorePermissions), Denied>((member@, permissions)),
            Err(e) => access_shown(stores@, caller@, input.store_id@, input.member_id@) == Err::<
                (Seq<char>, StorePermissions),
                Denied,
            >(e),
        },
{
    let member: String = if input.member_id.as_str().is_empty() {
        caller.to_owned()
    } else {
        input.member_id.clone()
    };
    if !same(member.as_str(), caller) {
        let may = read_permissions(&stores.links, input.store_id.as_str(), caller);
        if !may.manage {
            return Err(Denied::Manage);
        }
    }
    let permissions = read_permissions(&stores.links, input.store_id.as_str(), member.as_str());
    Ok((member, permissions))
}

// ---------------------------------------------------------------- laws

/// A signal reaches every member of a store but its sender, and nobody else.
pub proof fn law_signals_reach_everyone_but_the_sender(
    list: Seq<Seq<char>>,
    sender: Seq<char>,
    member: Seq<char>,
)
    ensures
        all_but(list, sender).contains(member) == (list.contains(member) && member != sender),
    decreases list.len(),
{
    if list.len() > 0 {
        let front = list.drop_last();
        let rest = all_but(front, sender);
        law_signals_reach_everyone_but_the_sender(front, sender, member);
        assert(list =~= front.push(list.last()));
        if front.contains(member) {
            let i = choose|i: int| 0 <= i < front.len() && front[i] == member;
            assert(list[i] == member);
        }
        if list.contains(member) {
            let i = choose|i: int| 0 <= i < list.len() && list[i] == member;
            if i < front.len() {
                assert(front[i] == member);
            } else {
                assert(list.last() == member);
            }
        }
        if list.last() == member {
            assert(list[list.len() - 1] == member);
        }
        if list.last() != sender {
            let whole = rest.push(list.last());
            assert(whole[rest.len() as int] == list.last());
            if rest.contains(member) {
                let i = choose|i: int| 0 <= i < rest.len() && rest[i] == member;
                assert(whole[i] == member);
            }
            if whole.contains(member) {
                let i = choose|i: int| 0 <= i < whole.len() && whole[i] == member;
                if i < rest.len() {
                    assert(rest[i] == member);
                }
            }
        }
    }
}

/// A signal that is not to be kept leaves the stores as they were.
pub proof fn law_passing_signals_leave_no_trace(
    state: StoresState,
    sender: Creature,
    input: SignalInput,
    facts: SignalFacts,
)
    requires
        input.temp,
    ensures
        match signalled(state, sender, input, facts) {
            Ok((after, sent)) => after == state && !sent.persisted && sent.signal_id.len() == 0,
            Err(e) => e == Denied::Signal,
        },
{
}

/// The balance of a sender never leaves the node with a signal.
pub proof fn law_signals_tell_no_balance(
    state: StoresState,
    sender: Creature,
    input: SignalInput,
    facts: SignalFacts,
)
    ensures
        signalled(state, sender, input, facts) matches Ok((_, sent)) ==> sent.sender_balance == 0,
{
}

/// What a manager gives a member is what the member may do, and reads.
pub proof fn law_given_access_is_held(
    state: StoresState,
    manager: Seq<char>,
    store: Seq<char>,
    member: Seq<char>,
    names: Seq<Seq<char>>,
)
    requires
        may(state, store, manager).manage,
    ensures
        match access_set(state, manager, store, member, names) {
            Ok((after, given)) => may(after, store, member) == given && given == named_permissions(
                names,
            ) && access_shown(after, member, store, Seq::empty()) == Ok::<
                (Seq<char>, StorePermissions),
                Denied,
            >((member, given)),
            Err(_) => false,
        },
{
    law_recorded_permissions_read_back(named_permissions(names));
}

} // verus!
