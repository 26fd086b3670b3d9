//! Who is known to a node, how they log in, and what they keep secret.
use vstd::prelude::*;

use crate::creature::directory::{
    creature_created, creature_deleted, creature_updated, Creature, CreatureFault, CreaturesState,
};
use crate::creature::identity::{login_address, sign_answer};
use crate::creature::login::{logged_in, Action, LoginEvent, LoginInput, LoginProgress};
use crate::creature::registry::{creature_added, RegistryState};
use crate::creature::secrets::{
    current_grants, put_refusal, secret_granted, secret_read, secret_revoked, Granted,
    SecretGrantInput,
};
use crate::creature::signals::{signal_goes, Plan, SignalInput};
use crate::creature::types::type_put;
use crate::creature::uploads::uploaded;
use crate::decimal::{decimal, read_i64};
use crate::json::Tree;
use crate::outside::lossy_text;
use crate::table::{dropped, law_lookup_after_drop, law_lookup_after_store, lookup, Rows};
use crate::text::{holds_text, trimmed};

verus! {

broadcast use law_lookup_after_store;

// ---------------------------------------------------------------- the directory

/// A creature is created exactly where neither its id nor its user name is taken: it is then found
/// under both, linked to its owner where it is no human and has one, and nobody else changes.
pub proof fn law_new_creatures_are_created(
    state: CreaturesState,
    record: Creature,
    other: Seq<char>,
)
    ensures
        (creature_created(state, record) is Ok) == (lookup(state.records, record.id) is None && (
        match lookup(state.usernames, record.username) {
            Some(id) => id.len() == 0,
            None => true,
        })),
        match creature_created(state, record) {
            Ok(after) => {
                let link = "ownerof::"@ + record.owner_id + "::"@ + record.id;
                let owned = record.creature_type != "human"@ && record.owner_id.len() > 0;
                &&& lookup(after.records, record.id) == Some(record)
                &&& record.username.len() > 0 ==> lookup(after.usernames, record.username) == Some(
                    record.id,
                )
                &&& record.username.len() == 0 ==> after.usernames == state.usernames
                &&& owned ==> lookup(after.links, link) == Some("true"@)
                &&& !owned ==> after.links == state.links
                &&& after.balances == state.balances
                &&& other != record.id ==> lookup(after.records, other) == lookup(
                    state.records,
                    other,
                )
                &&& other != record.username ==> lookup(after.usernames, other) == lookup(
                    state.usernames,
                    other,
                )
                &&& other != link ==> lookup(after.links, other) == lookup(state.links, other)
            },
            Err(e) => e == CreatureFault::Conflict,
        },
{
}

/// A creature is updated exactly where it exists and its user name, if new, is not taken: it is then
/// found under its new name and not under its old one, and no other record changes.
pub proof fn law_known_creatures_are_updated(
    state: CreaturesState,
    record: Creature,
    other: Seq<char>,
)
    ensures
        match creature_updated(state, record) {
            Ok(after) => lookup(state.records, record.id) matches Some(was) && {
                &&& lookup(after.records, record.id) == Some(record)
                &&& record.username.len() > 0 ==> lookup(after.usernames, record.username) == Some(
                    record.id,
                )
                &&& was.username != record.username && was.username.len() > 0 ==> lookup(
                    after.usernames,
                    was.username,
                ) is None
                &&& after.balances == state.balances
                &&& other != record.id ==> lookup(after.records, other) == lookup(
                    state.records,
                    other,
                )
                &&& other != record.username && other != was.username ==> lookup(
                    after.usernames,
                    other,
                ) == lookup(state.usernames, other)
            },
            Err(CreatureFault::NotFound) => lookup(state.records, record.id) is None,
            Err(CreatureFault::Conflict) => lookup(state.records, record.id) matches Some(was)
                && was.username != record.username && (lookup(
                state.usernames,
                record.username,
            ) matches Some(id) && id.len() > 0),
        },
{
    if let Some(was) = lookup(state.records, record.id) {
        law_lookup_after_drop(state.usernames, was.username, was.username);
        law_lookup_after_drop(state.usernames, was.username, other);
    }
}

/// A deleted creature is found under neither its id nor its name, and nobody else changes.
pub proof fn law_a_deleted_creature_is_not_found(
    state: CreaturesState,
    id: Seq<char>,
    was: Creature,
    other: Seq<char>,
)
    requires
        lookup(state.records, id) == Some(was),
    ensures
        lookup(creature_deleted(state, id).records, id) is None,
        was.username.len() > 0 ==> lookup(creature_deleted(state, id).usernames, was.username)
            is None,
        other != id ==> lookup(creature_deleted(state, id).records, other) == lookup(
            state.records,
            other,
        ),
        other != was.username ==> lookup(creature_deleted(state, id).usernames, other) == lookup(
            state.usernames,
            other,
        ),
{
    law_lookup_after_drop(state.records, id, id);
    law_lookup_after_drop(state.records, id, other);
    law_lookup_after_drop(state.usernames, was.username, was.username);
    law_lookup_after_drop(state.usernames, was.username, other);
}

/// A creature enters the registry exactly where its type is known and its id and name are free: with
/// the balance of its type, its session and its document, and nobody else changes.
pub proof fn law_creatures_enter_the_registry(
    state: RegistryState,
    record: Creature,
    session_id: Seq<char>,
    metadata: Tree,
    other: Seq<char>,
)
    ensures
        ({
            let spec = lookup(state.types, record.creature_type);
            let registered = spec is Some && spec->0.fields().len() > 0;
            let builtin = record.creature_type == "human"@ || record.creature_type == "machine"@;
            let opening = if registered {
                match spec->0.whole("initialBalance"@) {
                    Some(balance) => balance,
                    None => 0,
                }
            } else {
                0
            };
            let outcome = creature_added(state, record, session_id, metadata);
            &&& (outcome is Ok) == {
                &&& registered || builtin
                &&& lookup(state.creatures.records, record.id) is None
                &&& match lookup(state.creatures.usernames, record.username) {
                    Some(id) => id.len() == 0,
                    None => true,
                }
                &&& lookup(state.creatures.balances, record.id) is None
            }
            &&& outcome matches Ok((after, balance)) ==> {
                let a = "CreatMeta::"@ + record.id;
                let b = "UserMeta::"@ + record.id;
                &&& balance == opening
                &&& lookup(after.creatures.records, record.id) == Some(record)
                &&& lookup(after.creatures.balances, record.id) == Some(opening)
                &&& lookup(after.sessions, record.id) == Some(session_id)
                &&& metadata is Object ==> lookup(after.metadata, a) == Some(metadata) && lookup(
                    after.metadata,
                    b,
                ) == Some(metadata)
                &&& !(metadata is Object) ==> after.metadata == state.metadata
                &&& after.types == state.types
                &&& after.stores == state.stores
                &&& after.identities == state.identities
                &&& other != record.id ==> lookup(after.creatures.balances, other) == lookup(
                    state.creatures.balances,
                    other,
                ) && lookup(after.creatures.records, other) == lookup(
                    state.creatures.records,
                    other,
                ) && lookup(after.sessions, other) == lookup(state.sessions, other)
            }
        }),
{
    reveal_strlit("CreatMeta::");
    reveal_strlit("UserMeta::");
    let a = "CreatMeta::"@ + record.id;
    let b = "UserMeta::"@ + record.id;
    assert(a[0] == 'C' && b[0] == 'U');
}

/// A type of creatures is registered exactly where it is described by an object.
pub proof fn law_types_are_objects(
    types: Rows<Tree>,
    name: Seq<char>,
    spec: Tree,
    other: Seq<char>,
)
    ensures
        (type_put(types, name, spec) is Ok) == (spec is Object),
        type_put(types, name, spec) matches Ok(after) ==> lookup(after, name) == Some(spec) && (other
            != name ==> lookup(after, other) == lookup(types, other)),
{
}

// ---------------------------------------------------------------- logging in

/// A node in grant mode knows one who logs in by their address in lower case; another by the
/// address that they give, or, where that is none, by one made of their user name.
pub proof fn law_addresses_are_taken_or_made(
    token: Seq<char>,
    lower: Seq<char>,
    username: Seq<char>,
)
    ensures
        login_address(token, lower, username, true) == lower,
        trimmed(token).len() > 0 && holds_text(trimmed(token), "@"@) ==> login_address(
            token,
            lower,
            username,
            false,
        ) == trimmed(token),
        trimmed(token).len() == 0 || !holds_text(trimmed(token), "@"@) ==> login_address(
            token,
            lower,
            username,
            false,
        ) == username + "@dev.local"@,
{
}

/// One whose address leads to a creature is answered with that creature, its balance, its session
/// and its key, wherever no grant is missing; and nothing changes.
pub proof fn law_a_known_address_is_answered(
    state: RegistryState,
    input: LoginInput,
    node: Seq<char>,
    progress: LoginProgress,
    email: Seq<char>,
    id: Seq<char>,
    user: Creature,
)
    requires
        crate::creature::login::address_of(input, progress.grant_mode) == email,
        lookup(state.identities, "UserEmailToId::"@ + email) == Some(id),
        id.len() > 0,
        lookup(state.creatures.records, id) == Some(user),
        user.id == id,
        !progress.grant_mode || progress.granted,
    ensures
        logged_in(state, input, node, progress, LoginEvent::Asked) == (
            state,
            Action::Answer {
                user,
                balance: match lookup(state.creatures.balances, id) {
                    Some(balance) => balance,
                    None => 0,
                },
                session_id: match lookup(state.sessions, id) {
                    Some(session) => session,
                    None => Seq::empty(),
                },
                private_key: match lookup(state.identities, "UserPrivateKey::"@ + id) {
                    Some(key) => key,
                    None => Seq::empty(),
                },
            },
        ),
        logged_in(state, input, node, progress, LoginEvent::Granted) == logged_in(
            state,
            input,
            node,
            progress,
            LoginEvent::Asked,
        ),
{
}

/// One whose address leads nowhere is refused where their user name is taken, and else gets an
/// identity made; and nothing changes yet.
pub proof fn law_an_unknown_address_gets_an_identity(
    state: RegistryState,
    input: LoginInput,
    node: Seq<char>,
    progress: LoginProgress,
    email: Seq<char>,
)
    requires
        crate::creature::login::address_of(input, progress.grant_mode) == email,
        lookup(state.identities, "UserEmailToId::"@ + email) is None,
        !progress.grant_mode || progress.granted,
    ensures
        ({
            let taken = match lookup(state.creatures.usernames, input.username@ + "@"@ + node) {
                Some(id) => id.len() > 0,
                None => false,
            };
            let (after, action) = logged_in(state, input, node, progress, LoginEvent::Asked);
            &&& after == state
            &&& taken ==> action == (Action::Refuse { reason: "username already exist"@ })
            &&& !taken ==> action is MakeIdentity
        }),
{
}

/// One for whom an identity was made becomes a human of that identity, found by their address, with
/// the keys that were made.
#[verifier::rlimit(30)]
pub proof fn law_a_made_identity_is_bound(
    state: RegistryState,
    input: LoginInput,
    node: Seq<char>,
    progress: LoginProgress,
    event: LoginEvent,
    email: Seq<char>,
    after: RegistryState,
    user: Creature,
    balance: i64,
    session_id: Seq<char>,
    private_key: Seq<char>,
)
    requires
        crate::creature::login::address_of(input, progress.grant_mode) == email,
        lookup(state.identities, "UserEmailToId::"@ + email) is None,
        event is Made,
        logged_in(state, input, node, progress, event) == (
            after,
            Action::Answer { user, balance, session_id, private_key },
        ),
    ensures
        event matches LoginEvent::Made { identity } && {
            &&& !progress.grant_mode || progress.granted
            &&& user.id == identity.id@
            &&& user.creature_type == "human"@
            &&& user.username == input.username@ + "@"@ + node
            &&& user.public_key == lossy_text(identity.public_key@)
            &&& user.owner_id.len() == 0
            &&& session_id == identity.session_id@
            &&& private_key == lossy_text(identity.private_key@)
            &&& lookup(after.creatures.records, user.id) == Some(user)
            &&& lookup(after.creatures.balances, user.id) == Some(balance)
            &&& lookup(after.sessions, user.id) == Some(session_id)
            &&& lookup(after.identities, "UserEmailToId::"@ + email) == Some(user.id)
            &&& lookup(after.identities, "UserIdToEmail::"@ + user.id) == Some(email)
            &&& lookup(after.identities, "UserPrivateKey::"@ + user.id) == Some(private_key)
        },
{
    if let LoginEvent::Made { identity } = event {
        let made = crate::creature::login::new_human(input, node, identity);
        law_creatures_enter_the_registry(
            state,
            made,
            identity.session_id@,
            input.metadata@,
            Seq::empty(),
        );
        lemma_identity_keys(email, identity.id@);
    }
}

proof fn lemma_identity_keys(email: Seq<char>, id: Seq<char>)
    ensures
        "UserEmailToId::"@ + email != "UserIdToEmail::"@ + id,
        "UserEmailToId::"@ + email != "UserPrivateKey::"@ + id,
        "UserIdToEmail::"@ + id != "UserPrivateKey::"@ + id,
{
    reveal_strlit("UserEmailToId::");
    reveal_strlit("UserIdToEmail::");
    reveal_strlit("UserPrivateKey::");
    let a = "UserEmailToId::"@ + email;
    let b = "UserIdToEmail::"@ + id;
    let c = "UserPrivateKey::"@ + id;
    assert(a[4] == 'E' && b[4] == 'I' && c[4] == 'P');
}

/// A signature that was found good is answered with the address of its user, another without.
pub proof fn law_good_signatures_name_their_address(
    links: Rows<Seq<char>>,
    user: Seq<char>,
    email: Seq<char>,
)
    requires
        lookup(links, "UserIdToEmail::"@ + user) == Some(email),
    ensures
        sign_answer(links, user, true).flag("valid"@),
        sign_answer(links, user, true).text("email"@) == Some(email),
        sign_answer(links, user, false).field("valid"@) == Some(Tree::Bool(false)),
        sign_answer(links, user, false).field("email"@) is None,
{
    reveal_strlit("valid");
    reveal_strlit("email");
    assert("valid"@[0] == 'v' && "email"@[0] == 'e');
}

// ---------------------------------------------------------------- secrets

/// Whether a text can stand in the name of a secret.
pub open spec fn is_name(s: Seq<char>) -> bool {
    s.len() > 0 && !holds_text(s, ":"@)
}

/// Whether a recorded end of a grant is still to come.
pub open spec fn is_to_come(text: Seq<char>, now: int) -> bool {
    read_i64(trimmed(text)) matches Some(end) && end > 0 && now < end
}

/// A secret is kept exactly where somebody keeps something under a name.
pub proof fn law_named_secrets_are_kept(owner: Seq<char>, name: Seq<char>, value: Seq<char>)
    ensures
        (put_refusal(owner, name, value) is None) == (owner.len() > 0 && is_name(name)
            && value.len() > 0),
{
}

/// A secret is read exactly where it is there, by its owner, or by another to whom it was granted
/// until a time to come.
pub proof fn law_secrets_are_read_by_owners_and_grantees(
    links: Rows<Seq<char>>,
    caller: Seq<char>,
    named_owner: Seq<char>,
    name: Seq<char>,
    now: int,
)
    ensures
        ({
            let owner = if named_owner.len() == 0 {
                caller
            } else {
                named_owner
            };
            let blob = lookup(links, "Secret::"@ + owner + "::"@ + name);
            let outcome = secret_read(links, caller, named_owner, name, now);
            &&& (outcome is Ok) == {
                &&& caller.len() > 0
                &&& is_name(name)
                &&& owner == caller || (lookup(
                    links,
                    "SecretGrant::"@ + owner + "::"@ + name + "::"@ + caller,
                ) matches Some(text) && is_to_come(text, now))
                &&& blob matches Some(text) && text.len() > 0
            }
            &&& outcome matches Ok(read) ==> read == (owner, blob->0)
        }),
{
    crate::decimal::lemma_nothing_is_no_number();
}

/// A secret is granted exactly by its owner, where it is there and the grant lasts: until as many
/// seconds from now as were asked for. No other link changes.
pub proof fn law_owners_grant_their_secrets(
    links: Rows<Seq<char>>,
    owner: Seq<char>,
    input: SecretGrantInput,
    now: int,
    key: Seq<char>,
)
    ensures
        ({
            let grant = "SecretGrant::"@ + owner + "::"@ + input.name@ + "::"@ + input.grantee@;
            let back = "SecretGrantee::"@ + input.grantee@ + "::"@ + owner + "::"@ + input.name@;
            let outcome = secret_granted(links, owner, input, now);
            &&& (outcome is Ok) == {
                &&& owner.len() > 0
                &&& is_name(input.name@)
                &&& is_name(input.grantee@)
                &&& input.ttl_seconds > 0
                &&& lookup(links, "Secret::"@ + owner + "::"@ + input.name@) matches Some(text)
                    && text.len() > 0
            }
            &&& outcome matches Ok((after, end)) ==> {
                &&& end == now + 1000 * input.ttl_seconds
                &&& lookup(after, grant) == Some(decimal(end))
                &&& lookup(after, back) == Some(decimal(end))
                &&& key != grant && key != back ==> lookup(after, key) == lookup(links, key)
            }
        }),
{
    reveal_strlit("SecretGrant::");
    reveal_strlit("SecretGrantee::");
    let grant = "SecretGrant::"@ + owner + "::"@ + input.name@ + "::"@ + input.grantee@;
    let back = "SecretGrantee::"@ + input.grantee@ + "::"@ + owner + "::"@ + input.name@;
    assert(grant[11] == ':' && back[11] == 'e');
}

/// A grant is taken back exactly by an owner who names it; no other link changes.
pub proof fn law_owners_take_back_their_grants(
    links: Rows<Seq<char>>,
    owner: Seq<char>,
    name: Seq<char>,
    grantee: Seq<char>,
    key: Seq<char>,
)
    ensures
        ({
            let grant = "SecretGrant::"@ + owner + "::"@ + name + "::"@ + grantee;
            let back = "SecretGrantee::"@ + grantee + "::"@ + owner + "::"@ + name;
            let outcome = secret_revoked(links, owner, name, grantee);
            &&& (outcome is Ok) == (owner.len() > 0 && is_name(name) && is_name(grantee))
            &&& outcome matches Ok(after) ==> {
                &&& lookup(after, grant) is None
                &&& lookup(after, back) is None
                &&& key != grant && key != back ==> lookup(after, key) == lookup(links, key)
            }
        }),
{
    let grant = "SecretGrant::"@ + owner + "::"@ + name + "::"@ + grantee;
    let back = "SecretGrantee::"@ + grantee + "::"@ + owner + "::"@ + name;
    let one = dropped(links, grant);
    law_lookup_after_drop(links, grant, grant);
    law_lookup_after_drop(one, back, grant);
    law_lookup_after_drop(one, back, back);
    law_lookup_after_drop(links, grant, key);
    law_lookup_after_drop(one, back, key);
}

/// The grants that are listed are those recorded under a prefix that end in time to come.
pub proof fn law_only_current_grants_are_listed(
    links: Rows<Seq<char>>,
    prefix: Seq<char>,
    now: int,
    i: int,
)
    requires
        0 <= i < current_grants(links, prefix, now).len(),
    ensures
        now < current_grants(links, prefix, now)[i].expires_at,
        exists|j: int|
            0 <= j < links.len() && crate::text::has_prefix((#[trigger] links[j]).0, prefix)
                && read_i64(trimmed(links[j].1)) == Some(
                current_grants(links, prefix, now)[i].expires_at,
            ),
    decreases links.len(),
{
    let front = links.drop_last();
    let before = current_grants(front, prefix, now);
    if i < before.len() {
        law_only_current_grants_are_listed(front, prefix, now, i);
        let j = choose|j: int|
            0 <= j < front.len() && crate::text::has_prefix((#[trigger] front[j]).0, prefix)
                && read_i64(trimmed(front[j].1)) == Some(before[i].expires_at);
        assert(links[j] == front[j]);
    } else {
        assert(links[links.len() - 1] == links.last());
    }
}

// ---------------------------------------------------------------- signals and uploads

/// A signal is broadcast into a store exactly where there is one and its sender may signal in it,
/// and goes directly to a program, or else a creature, exactly where it names a creature.
pub proof fn law_signals_go_where_they_say(
    input: SignalInput,
    store: Seq<char>,
    may_signal: bool,
)
    ensures
        input.typ@ == "all"@ ==> (signal_goes(input, store, may_signal) is Ok) == (store.len() > 0
            && may_signal),
        input.typ@ == "all"@ ==> (signal_goes(input, store, may_signal) matches Ok(plan) ==> plan
            == (Plan::Broadcast { store_id: store })),
        input.typ@ == "pvp"@ ==> (signal_goes(input, store, may_signal) is Ok)
            == (input.creature_id@.len() > 0),
        input.typ@ == "pvp"@ ==> (signal_goes(input, store, may_signal) matches Ok(plan) ==> plan
            == (Plan::Direct {
            target_id: if input.program_id@.len() == 0 {
                input.creature_id@
            } else {
                input.program_id@
            },
            store_id: input.store_id@,
            entity_id: input.entity_id@,
            correlation_id: input.correlation_id@,
        })),
        input.typ@ != "all"@ && input.typ@ != "pvp"@ ==> signal_goes(input, store, may_signal)
            is Err,
{
    reveal_strlit("all");
    reveal_strlit("pvp");
    assert("all"@[0] == 'a' && "pvp"@[0] == 'p');
}

/// A file is taken exactly from one who is known, where it decoded to something of at most ten
/// mebibytes; it keeps its bytes and its type, or gets the plainest one.
pub proof fn law_files_of_bounded_size_are_taken(
    owner: Seq<char>,
    decoded: Result<Seq<u8>, Seq<char>>,
    stated: Seq<char>,
)
    ensures
        (uploaded(owner, decoded, stated) is Ok) == (owner.len() > 0 && (decoded matches Ok(data)
            && 0 < data.len() <= 10 * 1024 * 1024)),
        uploaded(owner, decoded, stated) matches Ok(file) ==> {
            &&& decoded == Ok::<Seq<u8>, Seq<char>>(file.data)
            &&& trimmed(stated).len() > 0 ==> file.content_type == trimmed(stated)
            &&& trimmed(stated).len() == 0 ==> file.content_type == "application/octet-stream"@
        },
{
}

} // verus!
