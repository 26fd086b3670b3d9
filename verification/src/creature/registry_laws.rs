//! What is listed of creatures and their types, and what is left when one is gone.
use vstd::prelude::*;

use crate::creature::directory::{
    balance_of, ids_of_type, metadata_replaced, records_under, Creature, CreaturesState,
    MetadataKind,
};
use crate::creature::identity::identity_forgotten;
use crate::creature::registry::{authenticated, creature_gone, user_metadata, RegistryState};
use crate::creature::types::{grant_migrated, listed_types, type_added};
use crate::json::{object_in, Tree};
use crate::order::{ascending, greatest, law_sorting_orders_and_keeps, text_le};
use crate::outside::parsed_json;
use crate::program::machines::{linked_machines, machine_of_link, machines_recorded};
use crate::table::{dropped, law_lookup_after_drop, law_lookup_after_store, lookup, Rows};

verus! {

broadcast use law_lookup_after_store;

// ---------------------------------------------------------------- creatures

/// The ids of a type are those of the records of that type, in their order; without a type they are
/// all.
pub proof fn law_creatures_are_listed_by_type(
    records: Rows<Creature>,
    last: (Seq<char>, Creature),
    kind: Option<Seq<char>>,
)
    ensures
        ({
            let before = ids_of_type(records, kind);
            let after = ids_of_type(records.push(last), kind);
            let fits = kind is None || kind == Some(last.1.creature_type);
            &&& fits ==> after == before.push(last.0)
            &&& !fits ==> after == before
            &&& ids_of_type(Seq::empty(), kind).len() == 0
        }),
{
    assert(records.push(last).drop_last() =~= records);
}

/// Records are shown under their ids in order, those that are there.
pub proof fn law_known_ids_are_shown_in_order(
    records: Rows<Creature>,
    ids: Seq<Seq<char>>,
    last: Seq<char>,
)
    ensures
        ({
            let before = records_under(records, ids);
            let after = records_under(records, ids.push(last));
            &&& lookup(records, last) matches Some(record) ==> after == before.push(record)
            &&& lookup(records, last) is None ==> after == before
            &&& records_under(records, Seq::empty()).len() == 0
        }),
{
    assert(ids.push(last).drop_last() =~= ids);
}

/// Only a creature that is known has a balance, which is nothing where none was set.
pub proof fn law_known_creatures_have_a_balance(state: CreaturesState, id: Seq<char>)
    ensures
        (balance_of(state, id) is Some) == (lookup(state.records, id) is Some),
        lookup(state.records, id) is Some ==> balance_of(state, id) == Some(
            match lookup(state.balances, id) {
                Some(balance) => balance,
                None => 0,
            },
        ),
{
}

/// One who authenticates is told who they are and what they have.
pub proof fn law_those_who_authenticate_are_told_who_they_are(record: Creature, balance: i64)
    ensures
        authenticated(record, balance).flag("authenticated"@),
        authenticated(record, balance).field("user"@) matches Some(user) && {
            &&& user.text("id"@) == Some(record.id)
            &&& user.text("type"@) == Some(record.creature_type)
            &&& user.text("username"@) == Some(record.username)
            &&& user.text("publicKey"@) == Some(record.public_key)
            &&& user.whole("balance"@) == Some(balance)
        },
{
    reveal_strlit("authenticated");
    reveal_strlit("user");
    reveal_strlit("id");
    reveal_strlit("type");
    reveal_strlit("username");
    reveal_strlit("publicKey");
    reveal_strlit("balance");
    assert("authenticated"@.len() == 13 && "user"@.len() == 4);
    assert("id"@.len() == 2 && "type"@.len() == 4 && "username"@.len() == 8);
    assert("publicKey"@.len() == 9 && "balance"@.len() == 7);
}

/// A document of a creature is replaced exactly by an object, under its own key, and no other
/// changes.
pub proof fn law_documents_are_replaced_by_objects(
    documents: Rows<Tree>,
    id: Seq<char>,
    document: Seq<char>,
    key: Seq<char>,
)
    ensures
        ({
            let tree = object_in(parsed_json(document));
            let a = metadata_replaced(documents, MetadataKind::Creature, id, document);
            let b = metadata_replaced(documents, MetadataKind::User, id, document);
            &&& (a is Ok) == (tree is Some)
            &&& (b is Ok) == (tree is Some)
            &&& a matches Ok(after) ==> lookup(after, "CreatMeta::"@ + id) == tree && (key
                != "CreatMeta::"@ + id ==> lookup(after, key) == lookup(documents, key))
            &&& b matches Ok(after) ==> lookup(after, "UserMeta::"@ + id) == tree && (key
                != "UserMeta::"@ + id ==> lookup(after, key) == lookup(documents, key))
        }),
{
}

/// The document of a user is what was kept of it, or an empty one; nobody else has any.
pub proof fn law_users_have_a_document(state: RegistryState, user: Seq<char>)
    ensures
        (user_metadata(state, user) is Ok) == (lookup(state.creatures.records, user) is Some),
        user_metadata(state, user) matches Ok(document) ==> document == (match lookup(
            state.metadata,
            "UserMeta::"@ + user,
        ) {
            Some(kept) => kept,
            None => Tree::Object(Seq::empty()),
        }),
{
}

/// Forgetting an identity takes the links of one user, both ways, and their key; every other link
/// stays.
pub proof fn law_an_identity_is_forgotten_both_ways(
    links: Rows<Seq<char>>,
    user: Seq<char>,
    email: Seq<char>,
    key: Seq<char>,
)
    requires
        lookup(links, "UserIdToEmail::"@ + user) == Some(email),
        email.len() > 0,
    ensures
        ({
            let after = identity_forgotten(links, user);
            let a = "UserIdToEmail::"@ + user;
            let b = "UserEmailToId::"@ + email;
            let c = "UserPrivateKey::"@ + user;
            &&& lookup(after, a) is None
            &&& lookup(after, b) is None
            &&& lookup(after, c) is None
            &&& key != a && key != b && key != c ==> lookup(after, key) == lookup(links, key)
        }),
{
    let a = "UserIdToEmail::"@ + user;
    let b = "UserEmailToId::"@ + email;
    let c = "UserPrivateKey::"@ + user;
    let one = dropped(links, a);
    let two = dropped(one, b);
    law_lookup_after_drop(links, a, a);
    law_lookup_after_drop(one, b, a);
    law_lookup_after_drop(two, c, a);
    law_lookup_after_drop(one, b, b);
    law_lookup_after_drop(two, c, b);
    law_lookup_after_drop(two, c, c);
    law_lookup_after_drop(links, a, key);
    law_lookup_after_drop(one, b, key);
    law_lookup_after_drop(two, c, key);
}

/// A creature is let go exactly where it is known; nobody else's record, name or balance changes.
pub proof fn law_letting_go_spares_everyone_else(
    state: RegistryState,
    user: Seq<char>,
    other: Seq<char>,
)
    requires
        other != user,
    ensures
        (creature_gone(state, user) is Ok) == (lookup(state.creatures.records, user) is Some),
        creature_gone(state, user) matches Ok(after) ==> {
            &&& lookup(after.creatures.records, other) == lookup(state.creatures.records, other)
            &&& lookup(after.creatures.balances, other) == lookup(state.creatures.balances, other)
            &&& after.types == state.types
        },
{
    law_lookup_after_drop(state.creatures.records, user, other);
    law_lookup_after_drop(state.creatures.balances, user, other);
}

// ---------------------------------------------------------------- types

/// A type is added exactly where none of its name is registered and it is an object.
pub proof fn law_new_types_are_added(
    types: Rows<Tree>,
    name: Seq<char>,
    spec: Tree,
    other: Seq<char>,
)
    ensures
        ({
            let known = lookup(types, name) matches Some(earlier) && earlier.fields().len() > 0;
            &&& !known && spec is Object ==> lookup(type_added(types, name, spec), name) == Some(
                spec,
            )
            &&& known || !(spec is Object) ==> type_added(types, name, spec) == types
            &&& other != name ==> lookup(type_added(types, name, spec), other) == lookup(
                types,
                other,
            )
        }),
{
}

/// Registered types are listed in their order, each with its name.
pub proof fn law_registered_types_are_listed(types: Rows<Tree>, last: (Seq<char>, Tree))
    ensures
        ({
            let before = listed_types(types);
            let after = listed_types(types.push(last));
            &&& last.1.fields().len() == 0 ==> after == before
            &&& last.1.fields().len() > 0 ==> after.len() == before.len() + 1 && after.last().text(
                "name"@,
            ) == Some(last.0) && after.drop_last() == before
            &&& listed_types(Seq::empty()).len() == 0
        }),
{
    assert(types.push(last).drop_last() =~= types);
    let before = listed_types(types);
    let after = listed_types(types.push(last));
    if last.1.fields().len() > 0 {
        assert(after.drop_last() =~= before);
    }
}

/// A human starts with nothing once the legacy grant is gone, and a balance that was set otherwise
/// stays.
pub proof fn law_only_the_legacy_grant_is_taken(types: Rows<Tree>, spec: Tree, other: Seq<char>)
    requires
        lookup(types, "human"@) == Some(spec),
        spec.fields().len() > 0,
    ensures
        spec.whole("initialBalance"@) == Some(1_000_000_000_000_000i64) ==> (lookup(
            grant_migrated(types),
            "human"@,
        ) matches Some(after) && after.whole("initialBalance"@) == Some(0i64)),
        spec.whole("initialBalance"@) != Some(1_000_000_000_000_000i64) ==> grant_migrated(types)
            == types,
        other != "human"@ ==> lookup(grant_migrated(types), other) == lookup(types, other),
{
}

// ---------------------------------------------------------------- machines

/// The machines that link to a program are those of its links, in their order.
pub proof fn law_links_name_their_machines(
    links: Rows<Seq<char>>,
    last: (Seq<char>, Seq<char>),
    program: Seq<char>,
)
    ensures
        ({
            let before = linked_machines(links, program);
            let after = linked_machines(links.push(last), program);
            &&& machine_of_link(last.0, program) matches Some(machine) ==> after == before.push(
                machine,
            )
            &&& machine_of_link(last.0, program) is None ==> after == before
            &&& linked_machines(Seq::empty(), program).len() == 0
        }),
{
    assert(links.push(last).drop_last() =~= links);
}

/// The owner of a machine is the one that its record names.
pub proof fn law_recorded_machines_have_their_owners(
    creatures: CreaturesState,
    links: Rows<Seq<char>>,
    program: Seq<char>,
    machine: Seq<char>,
    i: int,
)
    ensures
        ({
            let machines = machines_recorded(creatures, links, program, machine);
            let ids = linked_machines(links, program);
            &&& machines.recorded.id == machine
            &&& lookup(creatures.records, machine) matches Some(record) ==> machines.recorded.owner_id
                == record.owner_id
            &&& lookup(creatures.records, machine) is None ==> machines.recorded.owner_id.len() == 0
            &&& machines.linked.len() == ids.len()
            &&& 0 <= i < ids.len() ==> machines.linked[i].id == ids[i]
            &&& 0 <= i < ids.len() ==> (lookup(creatures.records, ids[i]) matches Some(record)
                ==> machines.linked[i].owner_id == record.owner_id)
        }),
{
}

// ---------------------------------------------------------------- the greatest texts

/// The greatest texts of a list come from the greatest on, as many as are asked for and there are.
pub proof fn law_the_greatest_texts_come_first(list: Seq<Seq<char>>, limit: int, i: int, j: int)
    requires
        limit >= 0,
    ensures
        greatest(list, limit).len() == if limit < list.len() {
            limit
        } else {
            list.len() as int
        },
        0 <= i < j < greatest(list, limit).len() ==> text_le(
            greatest(list, limit)[j],
            greatest(list, limit)[i],
        ),
        0 <= i < greatest(list, limit).len() ==> greatest(list, limit)[i] == ascending(list)[
        list.len() - 1 - i],
{
    law_sorting_orders_and_keeps(list);
    let sorted = ascending(list);
    if 0 <= i < j < greatest(list, limit).len() {
        assert(text_le(sorted[list.len() - 1 - j], sorted[list.len() - 1 - i]));
    }
}

} // verus!
