//! What a member leaves behind everywhere, and what is shown of stores and their members.
use vstd::prelude::*;

use crate::json::{merged, Tree};
use crate::store::membership::{
    creator_keys, existing, first_of, has_others, left_store, links_creator, member_removed,
    members_of, members_shown, metadata_merged, store_deleted, without_keys, StoreState,
    StoresState,
};
use crate::store::signal_laws::law_members_are_those_recorded;
use crate::store::signals::may;
use crate::table::{dropped, law_lookup_after_drop, law_lookup_after_store, lookup, Rows};
use crate::text::has_prefix;

verus! {

broadcast use law_lookup_after_store;

proof fn lemma_without_keys<T>(rows: Rows<T>, keys: Seq<Seq<char>>, key: Seq<char>)
    ensures
        lookup(without_keys(rows, keys), key) == if keys.contains(key) {
            None
        } else {
            lookup(rows, key)
        },
    decreases keys.len(),
{
    if keys.len() > 0 {
        let front = keys.drop_last();
        lemma_without_keys(rows, front, key);
        law_lookup_after_drop(without_keys(rows, front), keys.last(), key);
        assert(keys =~= front.push(keys.last()));
        if front.contains(key) {
            let i = choose|i: int| 0 <= i < front.len() && front[i] == key;
            assert(keys[i] == key);
        }
        if keys.contains(key) && keys.last() != key {
            let i = choose|i: int| 0 <= i < keys.len() && keys[i] == key;
            assert(front[i] == key);
        }
        if keys.last() == key {
            assert(keys[keys.len() - 1] == key);
        }
    }
}

proof fn lemma_creator_keys(links: Rows<Seq<char>>, store: Seq<char>, key: Seq<char>)
    ensures
        creator_keys(links, store).contains(key) ==> links_creator(key, store),
    decreases links.len(),
{
    if links.len() > 0 {
        lemma_creator_keys(links.drop_last(), store, key);
        let before = creator_keys(links.drop_last(), store);
        let all = creator_keys(links, store);
        if all.contains(key) {
            let i = choose|i: int| 0 <= i < all.len() && all[i] == key;
            if i < before.len() {
                assert(before[i] == key);
            }
        }
    }
}

/// A deleted store takes only the links to its creators; every other link stays.
pub proof fn law_a_deleted_store_takes_its_creator_links(
    state: StoresState,
    store: Seq<char>,
    key: Seq<char>,
)
    ensures
        !has_prefix(key, "creatorof::"@) ==> lookup(store_deleted(state, store).links, key)
            == lookup(state.links, key),
        lookup(store_deleted(state, store).links, key) is Some ==> lookup(
            store_deleted(state, store).links,
            key,
        ) == lookup(state.links, key),
{
    let keys = creator_keys(state.links, store);
    lemma_without_keys(state.links, keys, key);
    lemma_creator_keys(state.links, store, key);
}

/// One who is removed everywhere leaves each of their stores; a store that nobody else is in goes
/// with them, and every other store and every link of anybody else stays.
pub proof fn law_removing_a_member_spares_everyone_else(
    state: StoresState,
    member: Seq<char>,
    ids: Seq<Seq<char>>,
    store: Seq<char>,
    key: Seq<char>,
)
    ensures
        ({
            let (after, gone) = member_removed(state, member, ids);
            &&& gone.contains(store) ==> ids.contains(store) && lookup(after.records, store) is None
            &&& !gone.contains(store) ==> lookup(after.records, store) == lookup(
                state.records,
                store,
            )
            &&& (forall|i: int|
                0 <= i < ids.len() ==> key != "onaccess::"@ + (#[trigger] ids[i]) + "::"@ + member
                    && key != "hasaccess::"@ + member + "::"@ + ids[i] && key != "creatorof::"@
                    + member + "::"@ + ids[i]) && !has_prefix(key, "creatorof::"@) ==> lookup(
                after.links,
                key,
            ) == lookup(state.links, key)
        }),
    decreases ids.len(),
{
    if ids.len() > 0 {
        let front = ids.drop_last();
        law_removing_a_member_spares_everyone_else(state, member, front, store, key);
        let (before, gone) = member_removed(state, member, front);
        let (after, all) = member_removed(state, member, ids);
        let last = ids.last();
        let a = "onaccess::"@ + last + "::"@ + member;
        let b = "hasaccess::"@ + member + "::"@ + last;
        let c = "creatorof::"@ + member + "::"@ + last;
        let one = dropped(before.links, a);
        let two = dropped(one, b);
        let links = dropped(two, c);
        law_lookup_after_drop(before.links, a, key);
        law_lookup_after_drop(one, b, key);
        law_lookup_after_drop(two, c, key);
        let left = StoresState { links, ..before };
        law_a_deleted_store_takes_its_creator_links(left, last, key);
        law_lookup_after_drop(before.records, last, store);
        assert(ids[ids.len() - 1] == last);
        if gone.contains(store) {
            let i = choose|i: int| 0 <= i < front.len() && front[i] == store;
            assert(ids[i] == store);
            let j = choose|j: int| 0 <= j < gone.len() && gone[j] == store;
            assert(all[j] == store);
        }
        if all.contains(store) && !gone.contains(store) {
            let j = choose|j: int| 0 <= j < all.len() && all[j] == store;
            if j < gone.len() {
                assert(gone[j] == store);
            }
            assert(store == last);
        }
        if all.len() > gone.len() {
            assert(all[gone.len() as int] == last);
        }
        if forall|i: int|
            0 <= i < ids.len() ==> key != "onaccess::"@ + (#[trigger] ids[i]) + "::"@ + member
                && key != "hasaccess::"@ + member + "::"@ + ids[i] && key != "creatorof::"@ + member
                + "::"@ + ids[i] {
            assert forall|i: int| 0 <= i < front.len() implies key != "onaccess::"@ + (
            #[trigger] front[i]) + "::"@ + member && key != "hasaccess::"@ + member + "::"@
                + front[i] && key != "creatorof::"@ + member + "::"@ + front[i] by {
                assert(front[i] == ids[i]);
            }
            assert(key != a && key != b && key != c);
        }
    }
}

/// A store that another is in stays when a member is removed.
pub proof fn law_a_store_with_other_members_stays(
    state: StoresState,
    member: Seq<char>,
    store: Seq<char>,
    other: Seq<char>,
)
    requires
        other != member,
        other.len() > 0,
        lookup(state.records, store) is Some,
        lookup(state.links, "onaccess::"@ + store + "::"@ + other) is Some,
    ensures
        lookup(member_removed(state, member, seq![store]).0.records, store) == lookup(
            state.records,
            store,
        ),
        member_removed(state, member, seq![store]).1.len() == 0,
{
    let ids = seq![store];
    assert(ids.drop_last() =~= Seq::empty());
    assert(ids.last() == store);
    reveal_with_fuel(member_removed, 2);
    assert(member_removed(state, member, ids.drop_last()) == (state, Seq::<Seq<char>>::empty()));
    let a = "onaccess::"@ + store + "::"@ + member;
    let b = "hasaccess::"@ + member + "::"@ + store;
    let c = "creatorof::"@ + member + "::"@ + store;
    let key = "onaccess::"@ + store + "::"@ + other;
    reveal_strlit("onaccess::");
    reveal_strlit("hasaccess::");
    reveal_strlit("creatorof::");
    assert(key[0] == 'o' && b[0] == 'h' && c[0] == 'c');
    let head = "onaccess::"@ + store + "::"@;
    assert(a == head + member && key == head + other);
    if a == key {
        assert(member =~= a.subrange(head.len() as int, a.len() as int));
        assert(other =~= key.subrange(head.len() as int, key.len() as int));
    }
    let one = dropped(state.links, a);
    let two = dropped(one, b);
    let links = dropped(two, c);
    law_lookup_after_drop(state.links, a, key);
    law_lookup_after_drop(one, b, key);
    law_lookup_after_drop(two, c, key);
    law_members_are_those_recorded(links, store, other);
    let list = members_of(links, store);
    let i = choose|i: int| 0 <= i < list.len() && list[i] == other;
    assert(members_of(links, store)[i] != member);
    assert(has_others(links, store, member));
    assert(links == dropped(
        left_store(state.links, store, member),
        crate::store::membership::creator_key(member, store),
    ));
}

// ---------------------------------------------------------------- what is shown

/// Stores are shown under their ids in order, those that are there.
pub proof fn law_known_stores_are_shown_in_order(
    records: Rows<StoreState>,
    ids: Seq<Seq<char>>,
    last: Seq<char>,
    limit: int,
)
    requires
        limit >= 0,
    ensures
        ({
            let before = existing(records, ids);
            let after = existing(records, ids.push(last));
            &&& lookup(records, last) matches Some(record) ==> after == before.push(record)
            &&& lookup(records, last) is None ==> after == before
            &&& existing(records, Seq::empty()).len() == 0
            &&& first_of(ids, limit).len() == if limit <= ids.len() {
                limit
            } else {
                ids.len() as int
            }
            &&& forall|i: int|
                0 <= i < first_of(ids, limit).len() ==> first_of(ids, limit)[i] == ids[i]
        }),
{
    assert(ids.push(last).drop_last() =~= ids);
}

/// Every member of a store is shown with what they may do in it.
pub proof fn law_members_are_shown_with_what_they_may_do(
    state: StoresState,
    store: Seq<char>,
    i: int,
)
    requires
        0 <= i < members_of(state.links, store).len(),
    ensures
        members_shown(state.links, store).len() == members_of(state.links, store).len(),
        members_shown(state.links, store)[i] == (
            members_of(state.links, store)[i],
            may(state, store, members_of(state.links, store)[i]),
        ),
{
}

/// The document of a store is laid over its earlier one, and no other changes.
pub proof fn law_a_document_is_laid_over_the_earlier_one(
    state: StoresState,
    store: Seq<char>,
    document: Tree,
    other: Seq<char>,
)
    ensures
        ({
            let after = metadata_merged(state, store, document);
            let key = "StoreMeta::"@ + store;
            &&& lookup(state.metadata, key) is None ==> lookup(after.metadata, key) == Some(document)
            &&& lookup(state.metadata, key) matches Some(earlier) ==> lookup(after.metadata, key)
                == Some(merged(earlier, document))
            &&& other != key ==> lookup(after.metadata, other) == lookup(state.metadata, other)
            &&& after.records == state.records && after.links == state.links
        }),
{
}

} // verus!
