//! Bringing creatures about, telling of them, and letting them go with all that is theirs.
use vstd::prelude::*;

use crate::creature::directory::{
    balance_of, creature_created, creature_deleted, delete_metadata, metadata_key,
    replace_metadata_value, Creature, CreatureRecord, Creatures, CreaturesState, MetadataKind,
};
use crate::creature::identity::{
    address_key, forget_identity, identity_forgotten, private_key_key,
};
use crate::creature::types::{initial_balance, resolve_initial_balance};
use crate::json::{no_fields, object, Json, Tree};
use crate::store::membership::{member_removed, stores_of_member, Stores, StoresState};
use crate::table::{
    dropped, law_lookup_after_drop, law_lookup_after_store, lookup, stored, Rows, Table,
};

verus! {

broadcast use {vstd::string::group_string_axioms, law_lookup_after_store};

/// What the node knows of its creatures: who they are, their types and metadata, the stores
/// that they belong to, the addresses that lead to them, and their sessions.
pub struct Registry {
    pub creatures: Creatures,
    pub types: Table<Json>,
    pub metadata: Table<Json>,
    pub stores: Stores,
    pub identities: Table<String>,
    pub sessions: Table<String>,
}

/// What the node knows of its creatures, as texts.
pub struct RegistryState {
    pub creatures: CreaturesState,
    pub types: Rows<Tree>,
    pub metadata: Rows<Tree>,
    pub stores: StoresState,
    pub identities: Rows<Seq<char>>,
    pub sessions: Rows<Seq<char>>,
}

impl View for Registry {
    type V = RegistryState;

    open spec fn view(&self) -> RegistryState {
        RegistryState {
            creatures: self.creatures@,
            types: self.types@,
            metadata: self.metadata@,
            stores: self.stores@,
            identities: self.identities@,
            sessions: self.sessions@,
        }
    }
}

/// Why no creature comes about.
pub enum CreateRefusal {
    /// Its type is not known.
    Type(String),
    /// Its id or its user name is taken.
    Taken,
}

/// Why no creature comes about, as texts.
pub enum Refused {
    Type(Seq<char>),
    Taken,
}

impl View for CreateRefusal {
    type V = Refused;

    open spec fn view(&self) -> Refused {
        match self {
            CreateRefusal::Type(e) => Refused::Type(e@),
            CreateRefusal::Taken => Refused::Taken,
        }
    }
}

/// Metadata with a document in place of what a creature had, as a creature and as a user. A
/// document that is no object changes nothing.
pub open spec fn described(rows: Rows<Tree>, id: Seq<char>, document: Tree) -> Rows<Tree> {
    if document is Object {
        stored(
            stored(rows, metadata_key(MetadataKind::Creature, id), document),
            metadata_key(MetadataKind::User, id),
            document,
        )
    } else {
        rows
    }
}

/// The registry with a new creature and its session, and the balance that it starts with:
/// that of its type.
pub open spec fn creature_added(
    state: RegistryState,
    record: Creature,
    session_id: Seq<char>,
    metadata: Tree,
) -> Result<(RegistryState, i64), Refused> {
    match initial_balance(state.types, record.creature_type) {
        Err(e) => Err(Refused::Type(e)),
        Ok(opening) => match creature_created(state.creatures, record) {
            Err(_) => Err(Refused::Taken),
            Ok(creatures) => if lookup(state.creatures.balances, record.id) is Some {
                Err(Refused::Taken)
            } else {
                Ok(
                    (
                        RegistryState {
                            creatures: CreaturesState {
                                balances: stored(creatures.balances, record.id, opening),
                                ..creatures
                            },
                            metadata: described(state.metadata, record.id, metadata),
                            sessions: stored(state.sessions, record.id, session_id),
                            ..state
                        },
                        opening,
                    ),
                )
            },
        },
    }
}

/// The registry without a creature: nothing that was its alone is left.
pub open spec fn creature_gone(state: RegistryState, user: Seq<char>) -> Result<
    RegistryState,
    Seq<char>,
> {
    if lookup(state.creatures.records, user) is None {
        Err("user not found"@)
    } else {
        let creatures = creature_deleted(state.creatures, user);
        Ok(
            RegistryState {
                creatures: CreaturesState {
                    balances: dropped(creatures.balances, user),
                    ..creatures
                },
                metadata: dropped(
                    dropped(state.metadata, metadata_key(MetadataKind::Creature, user)),
                    metadata_key(MetadataKind::User, user),
                ),
                stores: member_removed(
                    state.stores,
                    user,
                    stores_of_member(state.stores.links, user),
                ).0,
                identities: identity_forgotten(state.identities, user),
                ..state
            },
        )
    }
}

/// The metadata of a user: nothing where none is kept.
pub open spec fn user_metadata(state: RegistryState, user: Seq<char>) -> Result<Tree, Seq<char>> {
    if lookup(state.creatures.records, user) is None {
        Err("user not found"@)
    } else {
        match lookup(state.metadata, metadata_key(MetadataKind::User, user)) {
            Some(document) => Ok(document),
            None => Ok(no_fields()),
        }
    }
}

/// What a creature that logged in is told of itself.
pub open spec fn authenticated(record: Creature, balance: i64) -> Tree {
    no_fields().with("authenticated"@, Tree::Bool(true)).with(
        "user"@,
        no_fields().with("id"@, Tree::Text(record.id)).with(
            "type"@,
            Tree::Text(record.creature_type),
        ).with("username"@, Tree::Text(record.username)).with(
            "publicKey"@,
            Tree::Text(record.public_key),
        ).with("balance"@, Tree::Whole(balance)),
    )
}

impl Registry {
    /// Bring a creature about, with a session and the balance that its type starts with.
    pub fn create(&mut self, record: &CreatureRecord, session_id: &str, metadata: &Json) -> (r:
        Result<i64, CreateRefusal>)
        ensures
            match r {
                Ok(opening) => creature_added(
                    old(self)@,
                    record@,
                    session_id@,
                    metadata@,
                ) == Ok::<(RegistryState, i64), Refused>((final(self)@, opening)),
                Err(e) => final(self)@ == old(self)@ && creature_added(
                    old(self)@,
                    record@,
                    session_id@,
                    metadata@,
                ) == Err::<(RegistryState, i64), Refused>(e@),
            },
    {
        let opening: i64 = match resolve_initial_balance(
            &self.types,
            record.creature_type.as_str(),
        ) {
            Ok(opening) => opening,
            Err(e) => {
                return Err(CreateRefusal::Type(e));
            },
        };
        if self.creatures.balances.has(record.id.as_str()) {
            return Err(CreateRefusal::Taken);
        }
        match self.creatures.create(record) {
            Ok(_) => {},
            Err(_) => {
                return Err(CreateRefusal::Taken);
            },
        }
        self.creatures.balances.put(record.id.as_str(), opening);
        self.sessions.put(record.id.as_str(), session_id.to_owned());
        replace_metadata_value(
            &mut self.metadata,
            MetadataKind::Creature,
            record.id.as_str(),
            metadata,
        );
        replace_metadata_value(
            &mut self.metadata,
            MetadataKind::User,
            record.id.as_str(),
            metadata,
        );
        Ok(opening)
    }

    /// Let a creature go, with its balance, its metadata, its memberships, and its identity.
    pub fn delete(&mut self, user: &str) -> (r: Result<(), String>)
        ensures
            match r {
                Ok(_) => creature_gone(old(self)@, user@) == Ok::<RegistryState, Seq<char>>(
                    final(self)@,
                ),
                Err(e) => final(self)@ == old(self)@ && creature_gone(old(self)@, user@) == Err::<
                    RegistryState,
                    Seq<char>,
                >(e@),
            },
    {
        if !self.creatures.records.has(user) {
            return Err("user not found".to_owned());
        }
        self.creatures.delete(user);
        self.creatures.close_balance(user);
        delete_metadata(&mut self.metadata, MetadataKind::Creature, user);
        delete_metadata(&mut self.metadata, MetadataKind::User, user);
        self.stores.remove_member_everywhere(user);
        forget_identity(&mut self.identities, user);
        Ok(())
    }

    /// The metadata of a user.
    pub fn meta(&self, user: &str) -> (r: Result<Json, String>)
        ensures
            match r {
                Ok(document) => user_metadata(self@, user@) == Ok::<Tree, Seq<char>>(document@),
                Err(e) => user_metadata(self@, user@) == Err::<Tree, Seq<char>>(e@),
            },
    {
        if !self.creatures.records.has(user) {
            return Err("user not found".to_owned());
        }
        let key = crate::text::join2("UserMeta::", user);
        match self.metadata.get(key.as_str()) {
            Some(document) => Ok(document.copy()),
            None => Ok(object()),
        }
    }

    /// What a creature that logged in is told of itself; nothing where it does not exist.
    pub fn authenticate(&self, user: &str) -> (r: Option<Json>)
        ensures
            match r {
                Some(answer) => lookup(self@.creatures.records, user@) matches Some(record)
                    && balance_of(self@.creatures, user@) matches Some(balance) && answer@
                    == authenticated(record, balance),
                None => lookup(self@.creatures.records, user@) is None,
            },
    {
        let record = match self.creatures.creature(user) {
            Some(record) => record,
            None => {
                return None;
            },
        };
        let balance: i64 = self.creatures.account_or_empty(user).balance;
        let shown = object().with("id", Json::Text(record.id)).with(
            "type",
            Json::Text(record.creature_type),
        ).with("username", Json::Text(record.username)).with(
            "publicKey",
            Json::Text(record.public_key),
        ).with("balance", Json::Whole(balance));
        Some(object().with("authenticated", Json::Bool(true)).with("user", shown))
    }
}

// ---------------------------------------------------------------- laws

/// A creature starts with the balance of its type, and is told so.
pub proof fn law_creatures_start_with_the_balance_of_their_type(
    state: RegistryState,
    record: Creature,
    session_id: Seq<char>,
    metadata: Tree,
)
    ensures
        creature_added(state, record, session_id, metadata) matches Ok((after, opening)) ==> {
            &&& initial_balance(state.types, record.creature_type) == Ok::<i64, Seq<char>>(opening)
            &&& balance_of(after.creatures, record.id) == Some(opening)
            &&& lookup(after.creatures.records, record.id) == Some(record)
        },
{
}

/// Nothing is left of a creature that was let go: no record, no balance, no metadata, no
/// address, and no key.
pub proof fn law_a_creature_that_is_gone_leaves_nothing(state: RegistryState, user: Seq<char>)
    ensures
        creature_gone(state, user) matches Ok(after) ==> {
            &&& lookup(after.creatures.records, user) is None
            &&& lookup(after.creatures.balances, user) is None
            &&& lookup(after.metadata, metadata_key(MetadataKind::Creature, user)) is None
            &&& lookup(after.metadata, metadata_key(MetadataKind::User, user)) is None
            &&& lookup(after.identities, address_key(user)) is None
            &&& lookup(after.identities, private_key_key(user)) is None
            &&& user_metadata(after, user) == Err::<Tree, Seq<char>>("user not found"@)
        },
{
    if creature_gone(state, user) is Ok {
        let a = metadata_key(MetadataKind::Creature, user);
        let b = metadata_key(MetadataKind::User, user);
        law_lookup_after_drop(state.creatures.records, user, user);
        law_lookup_after_drop(creature_deleted(state.creatures, user).balances, user, user);
        law_lookup_after_drop(state.metadata, a, a);
        law_lookup_after_drop(dropped(state.metadata, a), b, a);
        law_lookup_after_drop(dropped(state.metadata, a), b, b);
        let c = address_key(user);
        let d = private_key_key(user);
        let links = state.identities;
        let email = crate::finance::ledger::link_of(links, c);
        let e = crate::creature::identity::email_key(email);
        let one = dropped(links, c);
        let two = dropped(one, e);
        law_lookup_after_drop(links, c, c);
        law_lookup_after_drop(one, e, c);
        law_lookup_after_drop(one, d, c);
        law_lookup_after_drop(two, d, c);
        law_lookup_after_drop(one, d, d);
        law_lookup_after_drop(two, d, d);
    }
}

} // verus!
