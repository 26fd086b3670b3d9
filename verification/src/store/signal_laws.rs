//! Who may signal, read and manage in a store, and what becomes of a signal.
use vstd::prelude::*;

use crate::creature::directory::Creature;
use crate::json::Tree;
use crate::order::law_sorting_orders_and_keeps;
use crate::packets::stores::{HistoryInput, SignalInput};
use crate::store::membership::{
    joined_store, lemma_found_row, lemma_key_has_name, lemma_name_has_key, lemma_names_go_on,
    left_store, members_of, names_behind, store_created, store_deleted, store_updated,
    stores_of_member, StoreFault, StoreState, StoresState,
};
use crate::store::permissions::{law_recorded_permissions_read_back, StorePermissions};
use crate::store::signals::{
    access_set, access_shown, history_read, law_signals_reach_everyone_but_the_sender, may, reached,
    signal_answer, signal_logged, signalled, Denied, LoggedState, SentState, SignalFacts,
};
use crate::table::{law_lookup_after_drop, law_lookup_after_store, lookup, row_from, Rows};
use crate::text::{pieces, texts};

verus! {

broadcast use law_lookup_after_store;

// ---------------------------------------------------------------- permissions

/// Whether the record of a member's access to a store lists a word.
pub open spec fn is_granted(
    state: StoresState,
    store: Seq<char>,
    member: Seq<char>,
    word: Seq<char>,
) -> bool {
    lookup(state.links, "onaccess::"@ + store + "::"@ + member) matches Some(text) && pieces(
        text,
        ","@,
    ).contains(word)
}

proof fn lemma_empty_grants_nothing(word: Seq<char>)
    requires
        word.len() > 0,
    ensures
        !pieces(Seq::<char>::empty(), ","@).contains(word),
{
    reveal_strlit(",");
    crate::text::lemma_first_from(Seq::<char>::empty(), ","@, 0);
    let list = pieces(Seq::<char>::empty(), ","@);
    assert(list =~= seq![Seq::<char>::empty()]);
}

/// A member may do in a store exactly what the record of their access lists.
pub proof fn law_members_may_do_what_is_recorded(
    state: StoresState,
    store: Seq<char>,
    member: Seq<char>,
)
    ensures
        may(state, store, member).read == is_granted(state, store, member, "read"@),
        may(state, store, member).signal == is_granted(state, store, member, "signal"@),
        may(state, store, member).manage == is_granted(state, store, member, "manage"@),
{
    reveal_strlit("read");
    reveal_strlit("signal");
    reveal_strlit("manage");
    assert("read"@.len() == 4 && "signal"@.len() == 6 && "manage"@.len() == 6);
    lemma_empty_grants_nothing("read"@);
    lemma_empty_grants_nothing("signal"@);
    lemma_empty_grants_nothing("manage"@);
    if let Some(text) = lookup(state.links, "onaccess::"@ + store + "::"@ + member) {
        let list = pieces(text, ","@);
        assert forall|word: Seq<char>| list.contains(word) == crate::text::listed(list, word) by {
            if list.contains(word) {
                let i = choose|i: int| 0 <= i < list.len() && list[i] == word;
                assert(crate::text::listed(list, word));
            }
        }
    } else {
        let list = pieces(Seq::<char>::empty(), ","@);
        assert(list.contains("read"@) == crate::text::listed(list, "read"@));
        assert(list.contains("signal"@) == crate::text::listed(list, "signal"@));
        assert(list.contains("manage"@) == crate::text::listed(list, "manage"@));
    }
}

/// One who joined a store may do what they were given, and nobody else may do more or less.
pub proof fn law_joining_gives_what_was_given(
    state: StoresState,
    store: Seq<char>,
    member: Seq<char>,
    given: StorePermissions,
    key: Seq<char>,
)
    ensures
        ({
            let after = StoresState { links: joined_store(state.links, store, member, given), ..state };
            &&& may(after, store, member) == given
            &&& lookup(after.links, "hasaccess::"@ + member + "::"@ + store) == Some("true"@)
            &&& key != "onaccess::"@ + store + "::"@ + member && key != "hasaccess::"@ + member
                + "::"@ + store ==> lookup(after.links, key) == lookup(state.links, key)
        }),
{
    reveal_strlit("onaccess::");
    reveal_strlit("hasaccess::");
    let a = "onaccess::"@ + store + "::"@ + member;
    let b = "hasaccess::"@ + member + "::"@ + store;
    assert(a[0] == 'o' && b[0] == 'h');
    law_recorded_permissions_read_back(given);
}

/// One who left a store may do nothing in it and belongs to it no more; everything else stays.
pub proof fn law_leaving_takes_everything(
    state: StoresState,
    store: Seq<char>,
    member: Seq<char>,
    key: Seq<char>,
)
    ensures
        ({
            let after = StoresState { links: left_store(state.links, store, member), ..state };
            let none = StorePermissions { read: false, signal: false, manage: false };
            &&& may(after, store, member) == none
            &&& lookup(after.links, "onaccess::"@ + store + "::"@ + member) is None
            &&& lookup(after.links, "hasaccess::"@ + member + "::"@ + store) is None
            &&& key != "onaccess::"@ + store + "::"@ + member && key != "hasaccess::"@ + member
                + "::"@ + store ==> lookup(after.links, key) == lookup(state.links, key)
        }),
{
    let a = "onaccess::"@ + store + "::"@ + member;
    let b = "hasaccess::"@ + member + "::"@ + store;
    let one = crate::table::dropped(state.links, a);
    law_lookup_after_drop(state.links, a, a);
    law_lookup_after_drop(one, b, a);
    law_lookup_after_drop(one, b, b);
    law_lookup_after_drop(state.links, a, key);
    law_lookup_after_drop(one, b, key);
    let after = StoresState { links: left_store(state.links, store, member), ..state };
    law_members_may_do_what_is_recorded(after, store, member);
}

// ---------------------------------------------------------------- who belongs

proof fn lemma_names_behind(links: Rows<Seq<char>>, prefix: Seq<char>, name: Seq<char>)
    ensures
        crate::order::ascending(names_behind(links, prefix)).contains(name) == (name.len() > 0
            && lookup(links, prefix + name) is Some),
{
    let names = names_behind(links, prefix);
    let sorted = crate::order::ascending(names);
    law_sorting_orders_and_keeps(names);
    broadcast use vstd::seq_lib::group_to_multiset_ensures;

    assert(sorted.to_multiset().count(name) == names.to_multiset().count(name));
    assert(sorted.contains(name) == names.contains(name));
    if names.contains(name) {
        let i = choose|i: int| 0 <= i < names.len() && names[i] == name;
        lemma_name_has_key(links, prefix, i);
        lemma_names_go_on(links, prefix, i);
    }
    if name.len() > 0 && lookup(links, prefix + name) is Some {
        lemma_found_row(links, prefix + name, 0);
        lemma_key_has_name(links, prefix, name, row_from(links, prefix + name, 0)->0);
    }
}

/// The members of a store are those whose access to it is recorded, and the stores of a member are
/// those that the member is recorded to belong to.
pub proof fn law_members_are_those_recorded(
    links: Rows<Seq<char>>,
    store: Seq<char>,
    member: Seq<char>,
)
    ensures
        members_of(links, store).contains(member) == (member.len() > 0 && lookup(
            links,
            "onaccess::"@ + store + "::"@ + member,
        ) is Some),
        stores_of_member(links, member).contains(store) == (store.len() > 0 && lookup(
            links,
            "hasaccess::"@ + member + "::"@ + store,
        ) is Some),
{
    lemma_names_behind(links, "onaccess::"@ + store + "::"@, member);
    lemma_names_behind(links, "hasaccess::"@ + member + "::"@, store);
}

/// A signal goes out to every member of its store but its sender, and to nobody else.
pub proof fn law_a_signal_reaches_the_other_members(
    state: StoresState,
    store: Seq<char>,
    sender: Seq<char>,
    member: Seq<char>,
)
    ensures
        reached(state, store, sender).contains(member) == (member.len() > 0 && member != sender
            && lookup(state.links, "onaccess::"@ + store + "::"@ + member) is Some),
{
    law_signals_reach_everyone_but_the_sender(members_of(state.links, store), sender, member);
    law_members_are_those_recorded(state.links, store, member);
}

// ---------------------------------------------------------------- signals

/// A signal is taken exactly where its sender may signal in the store. It goes out with the data
/// of the request, into its store, in the name of its sender, with the tags and the time that were
/// recorded. It is kept exactly where the store keeps its history and the signal is not a passing
/// one, and then goes out under the id of its row.
pub proof fn law_a_signal_goes_out_as_it_was_sent(
    state: StoresState,
    sender: Creature,
    input: SignalInput,
    facts: SignalFacts,
)
    ensures
        (signalled(state, sender, input, facts) is Ok) == is_granted(
            state,
            input.store_id@,
            sender.id,
            "signal"@,
        ),
        signalled(state, sender, input, facts) matches Err(e) ==> e == Denied::Signal,
        signalled(state, sender, input, facts) matches Ok((after, sent)) ==> {
            &&& sent.data == input.data@
            &&& sent.store_id == input.store_id@
            &&& sent.sender == sender
            &&& sent.temp == input.temp
            &&& sent.tags == texts(facts.tags@)
            &&& sent.time == facts.time
            &&& sent.sender_balance == 0
            &&& input.typ@.len() > 0 ==> sent.action == input.typ@
            &&& input.typ@.len() == 0 ==> sent.action == "broadcast"@
            &&& sent.persisted == (!input.temp && (lookup(
                state.records,
                input.store_id@,
            ) matches Some(store) && store.persistent_history))
            &&& sent.persisted ==> sent.signal_id == facts.row_id@
            &&& !sent.persisted ==> sent.signal_id.len() == 0 && after == state
        },
{
    law_members_may_do_what_is_recorded(state, input.store_id@, sender.id);
}

/// A signal that is kept is counted once in its store, and nothing else changes.
pub proof fn law_a_kept_signal_is_counted(
    state: StoresState,
    sender: Creature,
    input: SignalInput,
    facts: SignalFacts,
    after: StoresState,
    sent: SentState,
    other: Seq<char>,
)
    requires
        signalled(state, sender, input, facts) == Ok::<(StoresState, SentState), Denied>(
            (after, sent),
        ),
        sent.persisted,
    ensures
        after.links == state.links,
        after.metadata == state.metadata,
        other != input.store_id@ ==> lookup(after.records, other) == lookup(state.records, other),
        lookup(state.records, input.store_id@) matches Some(store) && lookup(
            after.records,
            input.store_id@,
        ) == Some(StoreState { signal_count: store.signal_count + 1, ..store }),
{
}

/// The log is given a signal exactly where it is kept, and what it is given is what goes out: the
/// same data, store, sender, tags and time.
pub proof fn law_the_log_is_given_what_goes_out(
    state: StoresState,
    sender: Creature,
    input: SignalInput,
    facts: SignalFacts,
)
    ensures
        match signalled(state, sender, input, facts) {
            Ok((_, sent)) => match signal_logged(
                state,
                sender.id,
                input,
                texts(facts.tags@),
                facts.time,
            ) {
                Ok(Some(row)) => {
                    &&& sent.persisted
                    &&& row.data == sent.data
                    &&& row.store_id == sent.store_id
                    &&& row.sender_id == sent.sender.id
                    &&& row.tags == sent.tags
                    &&& row.time == sent.time
                    &&& row.data == input.data@
                    &&& row.store_id == input.store_id@
                },
                Ok(None) => !sent.persisted,
                Err(_) => false,
            },
            Err(e) => signal_logged(
                state,
                sender.id,
                input,
                texts(facts.tags@),
                facts.time,
            ) == Err::<Option<LoggedState>, Denied>(e),
        },
{
}

/// One who signalled is told whether the signal was kept, under which id, when, and with which
/// tags.
pub proof fn law_the_sender_is_told_what_became_of_the_signal(sent: SentState)
    ensures
        ({
            let answer = signal_answer(sent);
            &&& answer.field("passed"@) == Some(Tree::Bool(true))
            &&& answer.field("persisted"@) == Some(Tree::Bool(sent.persisted))
            &&& answer.text("signalId"@) == Some(sent.signal_id)
            &&& answer.whole("time"@) == Some(sent.time)
            &&& answer.items("tags"@) matches Some(list) && list.len() == sent.tags.len()
                && forall|i: int|
                0 <= i < list.len() ==> #[trigger] list[i] == Tree::Text(sent.tags[i])
        }),
{
    reveal_strlit("passed");
    reveal_strlit("persisted");
    reveal_strlit("signalId");
    reveal_strlit("time");
    reveal_strlit("tags");
    assert("passed"@.len() == 6);
    assert("persisted"@.len() == 9);
    assert("signalId"@.len() == 8);
    assert("time"@.len() == 4 && "time"@[1] == 'i');
    assert("tags"@.len() == 4 && "tags"@[1] == 'a');
}

/// The history of a store is read exactly by those who may read it, for the tags and the times that
/// they ask for, as many rows as they ask for or else one page.
pub proof fn law_readers_get_what_they_ask_for(
    state: StoresState,
    reader: Seq<char>,
    input: HistoryInput,
    page: i64,
)
    ensures
        match history_read(state, reader, input, page) {
            Ok(query) => {
                &&& is_granted(state, input.store_id@, reader, "read"@)
                &&& query.tags_all == texts(input.tags_all@)
                &&& query.tags_any == texts(input.tags_any@)
                &&& query.before_time == input.before_time
                &&& query.after_time == input.after_time
                &&& input.count > 0 ==> query.count == input.count
                &&& input.count <= 0 ==> query.count == page
            },
            Err(e) => e == Denied::Read && !is_granted(state, input.store_id@, reader, "read"@),
        },
{
    law_members_may_do_what_is_recorded(state, input.store_id@, reader);
}

// ---------------------------------------------------------------- access

/// Only managers of a store change what a member may do in it. The member may then do exactly what
/// the listed words say, and what anyone else may do, and everything else, stays.
pub proof fn law_managers_change_access(
    state: StoresState,
    caller: Seq<char>,
    store: Seq<char>,
    member: Seq<char>,
    names: Seq<Seq<char>>,
    key: Seq<char>,
)
    ensures
        (access_set(state, caller, store, member, names) is Ok) == is_granted(
            state,
            store,
            caller,
            "manage"@,
        ),
        match access_set(state, caller, store, member, names) {
            Ok((after, given)) => {
                &&& given.read == names.contains("read"@)
                &&& given.signal == names.contains("signal"@)
                &&& given.manage == names.contains("manage"@)
                &&& may(after, store, member) == given
                &&& after.records == state.records
                &&& after.metadata == state.metadata
                &&& key != "onaccess::"@ + store + "::"@ + member ==> lookup(after.links, key)
                    == lookup(state.links, key)
            },
            Err(e) => e == Denied::Manage,
        },
{
    law_members_may_do_what_is_recorded(state, store, caller);
    law_recorded_permissions_read_back(crate::store::permissions::named_permissions(names));
    assert forall|word: Seq<char>|
        #![trigger crate::text::listed(names, word)]
        names.contains(word) == crate::text::listed(names, word) by {
        if names.contains(word) {
            let i = choose|i: int| 0 <= i < names.len() && names[i] == word;
            assert(crate::text::listed(names, word));
        }
    }
}

/// Everyone reads what they may do themselves; what another may do is read by managers alone.
pub proof fn law_access_is_shown_to_its_holder_and_managers(
    state: StoresState,
    caller: Seq<char>,
    store: Seq<char>,
    wanted: Seq<char>,
)
    ensures
        (wanted.len() == 0 || wanted == caller) ==> access_shown(state, caller, store, wanted)
            == Ok::<(Seq<char>, StorePermissions), Denied>((caller, may(state, store, caller))),
        wanted.len() > 0 && wanted != caller && is_granted(state, store, caller, "manage"@)
            ==> access_shown(state, caller, store, wanted) == Ok::<
            (Seq<char>, StorePermissions),
            Denied,
        >((wanted, may(state, store, wanted))),
        wanted.len() > 0 && wanted != caller && !is_granted(state, store, caller, "manage"@)
            ==> access_shown(state, caller, store, wanted) == Err::<
            (Seq<char>, StorePermissions),
            Denied,
        >(Denied::Manage),
{
    law_members_may_do_what_is_recorded(state, store, caller);
}

// ---------------------------------------------------------------- stores

/// A store is created exactly where there is none of its id, as it was asked for and linked to its
/// creator; nothing else changes.
pub proof fn law_a_new_store_is_created(
    state: StoresState,
    record: StoreState,
    creator: Seq<char>,
    other: Seq<char>,
)
    ensures
        match store_created(state, record, creator) {
            Ok(after) => {
                &&& lookup(state.records, record.id) is None
                &&& lookup(after.records, record.id) == Some(record)
                &&& lookup(after.links, "creatorof::"@ + creator + "::"@ + record.id) == Some(
                    "true"@,
                )
                &&& other != record.id ==> lookup(after.records, other) == lookup(
                    state.records,
                    other,
                )
                &&& other != "creatorof::"@ + creator + "::"@ + record.id ==> lookup(
                    after.links,
                    other,
                ) == lookup(state.links, other)
                &&& after.metadata == state.metadata
            },
            Err(e) => e == StoreFault::Conflict && lookup(state.records, record.id) is Some,
        },
{
}

/// A store is updated exactly where there is one of its id; nothing else changes.
pub proof fn law_a_store_is_updated_where_it_exists(
    state: StoresState,
    record: StoreState,
    other: Seq<char>,
)
    ensures
        match store_updated(state, record) {
            Ok(after) => {
                &&& lookup(state.records, record.id) is Some
                &&& lookup(after.records, record.id) == Some(record)
                &&& other != record.id ==> lookup(after.records, other) == lookup(
                    state.records,
                    other,
                )
                &&& after.links == state.links
                &&& after.metadata == state.metadata
            },
            Err(e) => e == StoreFault::NotFound && lookup(state.records, record.id) is None,
        },
{
}

/// A deleted store has no record and no document, and every other store keeps its own.
pub proof fn law_a_deleted_store_is_gone(state: StoresState, store: Seq<char>, other: Seq<char>)
    requires
        other != store,
    ensures
        lookup(store_deleted(state, store).records, store) is None,
        lookup(store_deleted(state, store).metadata, "StoreMeta::"@ + store) is None,
        lookup(store_deleted(state, store).records, other) == lookup(state.records, other),
        lookup(store_deleted(state, store).metadata, "StoreMeta::"@ + other) == lookup(
            state.metadata,
            "StoreMeta::"@ + other,
        ),
{
    let a = "StoreMeta::"@ + store;
    let b = "StoreMeta::"@ + other;
    let n = "StoreMeta::"@.len() as int;
    assert(a.subrange(n, a.len() as int) =~= store);
    assert(b.subrange(n, b.len() as int) =~= other);
    law_lookup_after_drop(state.records, store, store);
    law_lookup_after_drop(state.records, store, other);
    law_lookup_after_drop(state.metadata, a, a);
    law_lookup_after_drop(state.metadata, a, b);
}

} // verus!
