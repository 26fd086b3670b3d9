//! Logging in: as the creature that an address leads to, or as a new one.
//!
//! A login goes on in steps, because grants are used up and keys are made elsewhere: each
//! event leads to the next action, until there is an answer or a refusal.
use vstd::prelude::*;

use crate::creature::directory::{balance_of, named, Creature, CreatureRecord};
use crate::creature::identity::{
    bind_identity, email_key, expected_username, identity_bound, link_text, login_address,
    login_email, private_key_key,
};
use crate::creature::registry::{creature_added, CreateRefusal, Refused, Registry, RegistryState};
use crate::finance::ledger::link_of;
use crate::json::Json;
use crate::outside::{lossy_text, lowercase_of, read_lossy};
use crate::table::{dropped, law_lookup_after_store, lookup};
use crate::text::{join2, trimmed};

verus! {

broadcast use {vstd::string::group_string_axioms, law_lookup_after_store};

/// A request to log in.
pub struct LoginInput {
    pub email_token: String,
    pub username: String,
    pub login_grant: String,
    pub metadata: Json,
}

/// The keys, as they were made, and the identifiers of a new creature.
pub struct NewIdentity {
    pub id: String,
    pub session_id: String,
    pub public_key: Vec<u8>,
    pub private_key: Vec<u8>,
}

/// How far a login has come. A node in grant mode takes nobody whose grant was not found good.
#[derive(Clone, Copy, PartialEq, Eq, Structural, Debug)]
pub struct LoginProgress {
    pub grant_mode: bool,
    pub granted: bool,
}

impl LoginProgress {
    /// A login that begins.
    pub fn begin(grant_mode: bool) -> (r: LoginProgress)
        ensures
            r == (LoginProgress { grant_mode, granted: false }),
    {
        LoginProgress { grant_mode, granted: false }
    }

    /// Whether the grant of the login has not been found good yet.
    pub open spec fn lacks_grant(self) -> bool {
        self.grant_mode && !self.granted
    }
}

/// What happened to a login.
pub enum LoginEvent {
    /// It was asked for.
    Asked,
    /// Its grant was good for the address, and is used up.
    Granted,
    /// Its grant was not good for the address.
    Denied { reason: String },
    /// Keys and identifiers were made for it.
    Made { identity: NewIdentity },
}

/// What a login does next.
pub enum LoginAction {
    /// Use up the grant, which has to be good for the address.
    UseGrant { grant: String, email: String },
    /// Make keys and identifiers for a new creature.
    MakeIdentity,
    /// Tell the creature who it is, and its key.
    Answer { user: CreatureRecord, balance: i64, session_id: String, private_key: String },
    /// Refuse the login.
    Refuse { reason: String },
    /// Refuse the login, since the new creature cannot come about.
    NotCreated { refusal: CreateRefusal },
}

/// What a login does next, as texts.
pub enum Action {
    UseGrant { grant: Seq<char>, email: Seq<char> },
    MakeIdentity,
    Answer { user: Creature, balance: i64, session_id: Seq<char>, private_key: Seq<char> },
    Refuse { reason: Seq<char> },
    NotCreated { refusal: Refused },
}

impl View for LoginAction {
    type V = Action;

    open spec fn view(&self) -> Action {
        match self {
            LoginAction::UseGrant { grant, email } => Action::UseGrant {
                grant: grant@,
                email: email@,
            },
            LoginAction::MakeIdentity => Action::MakeIdentity,
            LoginAction::Answer { user, balance, session_id, private_key } => Action::Answer {
                user: user@,
                balance: *balance,
                session_id: session_id@,
                private_key: private_key@,
            },
            LoginAction::Refuse { reason } => Action::Refuse { reason: reason@ },
            LoginAction::NotCreated { refusal } => Action::NotCreated { refusal: refusal@ },
        }
    }
}

/// The mail address of a login.
pub open spec fn address_of(input: LoginInput, grant_mode: bool) -> Seq<char> {
    login_address(
        input.email_token@,
        lowercase_of(trimmed(input.email_token@)),
        input.username@,
        grant_mode,
    )
}

/// The creature that an address leads to, where it exists.
pub open spec fn known(state: RegistryState, email: Seq<char>) -> Option<Creature> {
    let user = link_of(state.identities, email_key(email));
    if user.len() == 0 {
        None
    } else {
        lookup(state.creatures.records, user)
    }
}

/// How a login goes on whose address may be used: the creature that the address leads to is
/// answered, and a new one needs a user name that is free.
pub open spec fn admitted(
    state: RegistryState,
    input: LoginInput,
    node: Seq<char>,
    email: Seq<char>,
) -> Action {
    match known(state, email) {
        Some(user) => Action::Answer {
            user,
            balance: match balance_of(state.creatures, user.id) {
                Some(balance) => balance,
                None => 0,
            },
            session_id: link_of(state.sessions, user.id),
            private_key: link_of(state.identities, private_key_key(user.id)),
        },
        None => if named(state.creatures, input.username@ + "@"@ + node) is Some {
            Action::Refuse { reason: "username already exist"@ }
        } else {
            Action::MakeIdentity
        },
    }
}

/// The human that a login brings about.
pub open spec fn new_human(input: LoginInput, node: Seq<char>, identity: NewIdentity) -> Creature {
    Creature {
        id: identity.id@,
        creature_type: "human"@,
        username: input.username@ + "@"@ + node,
        public_key: lossy_text(identity.public_key@),
        chain_id: Seq::empty(),
        subchain_id: Seq::empty(),
        owner_id: Seq::empty(),
    }
}

/// The registry without an address whose creature is gone.
pub open spec fn stale_dropped(state: RegistryState, email: Seq<char>) -> RegistryState {
    if link_of(state.identities, email_key(email)).len() > 0 {
        RegistryState { identities: dropped(state.identities, email_key(email)), ..state }
    } else {
        state
    }
}

/// What a login does next that has to show its grant.
pub open spec fn grant_asked(input: LoginInput) -> Action {
    Action::UseGrant { grant: input.login_grant@, email: address_of(input, true) }
}

/// How far a login has come after an event.
pub open spec fn moved_on(progress: LoginProgress, event: LoginEvent) -> LoginProgress {
    if event is Granted {
        LoginProgress { granted: true, ..progress }
    } else {
        progress
    }
}

/// The registry after an event of a login, and what the login does next. Only a login that
/// brings a creature about changes the registry.
pub open spec fn logged_in(
    state: RegistryState,
    input: LoginInput,
    node: Seq<char>,
    progress: LoginProgress,
    event: LoginEvent,
) -> (RegistryState, Action) {
    let email = address_of(input, progress.grant_mode);
    match event {
        LoginEvent::Denied { reason } => (state, Action::Refuse { reason: reason@ }),
        LoginEvent::Granted => (state, admitted(state, input, node, email)),
        LoginEvent::Asked => if progress.lacks_grant() {
            (state, grant_asked(input))
        } else {
            (state, admitted(state, input, node, email))
        },
        LoginEvent::Made { identity } => {
            let next = admitted(state, input, node, email);
            if progress.lacks_grant() {
                (state, grant_asked(input))
            } else if next !is MakeIdentity {
                (state, next)
            } else {
                let human = new_human(input, node, identity);
                match creature_added(
                    stale_dropped(state, email),
                    human,
                    identity.session_id@,
                    input.metadata@,
                ) {
                    Err(refusal) => (state, Action::NotCreated { refusal }),
                    Ok((after, opening)) => (
                        RegistryState {
                            identities: identity_bound(
                                after.identities,
                                email,
                                identity.id@,
                                lossy_text(identity.private_key@),
                            ),
                            ..after
                        },
                        Action::Answer {
                            user: human,
                            balance: opening,
                            session_id: identity.session_id@,
                            private_key: lossy_text(identity.private_key@),
                        },
                    ),
                }
            }
        },
    }
}

fn look_up(registry: &Registry, input: &LoginInput, node: &str, email: &str) -> (r: LoginAction)
    ensures
        r@ == admitted(registry@, *input, node@, email@),
{
    let key = join2("UserEmailToId::", email);
    let user = link_text(&registry.identities, key.as_str());
    if !user.as_str().is_empty() {
        match registry.creatures.creature(user.as_str()) {
            Some(record) => {
                let secret = join2("UserPrivateKey::", record.id.as_str());
                let private_key = link_text(&registry.identities, secret.as_str());
                let session_id = link_text(&registry.sessions, record.id.as_str());
                let balance: i64 = registry.creatures.account_or_empty(
                    record.id.as_str(),
                ).balance;
                return LoginAction::Answer { user: record, balance, session_id, private_key };
            },
            None => {},
        }
    }
    let username = expected_username(input.username.as_str(), node);
    match registry.creatures.creature_id_by_username(username.as_str()) {
        Some(_) => LoginAction::Refuse { reason: "username already exist".to_owned() },
        None => LoginAction::MakeIdentity,
    }
}

fn bring_about(
    registry: &mut Registry,
    input: &LoginInput,
    node: &str,
    email: &str,
    identity: NewIdentity,
) -> (r: LoginAction)
    requires
        admitted(old(registry)@, *input, node@, email@) is MakeIdentity,
    ensures
        ({
            let human = new_human(*input, node@, identity);
            match creature_added(
                stale_dropped(old(registry)@, email@),
                human,
                identity.session_id@,
                input.metadata@,
            ) {
                Err(refusal) => final(registry)@ == old(registry)@ && r@ == (Action::NotCreated {
                    refusal,
                }),
                Ok((after, opening)) => final(registry)@ == (RegistryState {
                    identities: identity_bound(
                        after.identities,
                        email@,
                        identity.id@,
                        lossy_text(identity.private_key@),
                    ),
                    ..after
                }) && r@ == (Action::Answer {
                    user: human,
                    balance: opening,
                    session_id: identity.session_id@,
                    private_key: lossy_text(identity.private_key@),
                }),
            }
        }),
{
    let empty = String::new();
    assert(empty@ =~= Seq::<char>::empty());
    let record = CreatureRecord {
        id: identity.id.clone(),
        creature_type: "human".to_owned(),
        username: expected_username(input.username.as_str(), node),
        public_key: read_lossy(identity.public_key.as_slice()),
        chain_id: empty.clone(),
        subchain_id: empty.clone(),
        owner_id: empty,
    };
    assert(record@ == new_human(*input, node@, identity));
    let ghost before = registry@;
    let ghost cleared = stale_dropped(before, email@);
    match registry.create(&record, identity.session_id.as_str(), &input.metadata) {
        Err(refusal) => LoginAction::NotCreated { refusal },
        Ok(opening) => {
            let key = join2("UserEmailToId::", email);
            let private_key = read_lossy(identity.private_key.as_slice());
            let stale = link_text(&registry.identities, key.as_str());
            if !stale.as_str().is_empty() {
                registry.identities.remove(key.as_str());
            }
            assert(registry@.identities == cleared.identities);
            bind_identity(
                &mut registry.identities,
                email,
                identity.id.as_str(),
                private_key.as_str(),
            );
            LoginAction::Answer {
                user: record,
                balance: opening,
                session_id: identity.session_id,
                private_key,
            }
        },
    }
}

/// Take a login one step on.
pub fn login(
    registry: &mut Registry,
    input: &LoginInput,
    node: &str,
    progress: &mut LoginProgress,
    event: LoginEvent,
) -> (r: LoginAction)
    ensures
        (final(registry)@, r@) == logged_in(old(registry)@, *input, node@, *old(progress), event),
        *final(progress) == moved_on(*old(progress), event),
{
    let grant_mode: bool = progress.grant_mode;
    let lacks_grant: bool = grant_mode && !progress.granted;
    let email = login_email(input.email_token.as_str(), input.username.as_str(), grant_mode);
    match event {
        LoginEvent::Denied { reason } => LoginAction::Refuse { reason },
        LoginEvent::Granted => {
            *progress = LoginProgress { grant_mode, granted: true };
            look_up(&*registry, input, node, email.as_str())
        },
        LoginEvent::Asked => if lacks_grant {
            LoginAction::UseGrant { grant: input.login_grant.clone(), email }
        } else {
            look_up(&*registry, input, node, email.as_str())
        },
        LoginEvent::Made { identity } => if lacks_grant {
            LoginAction::UseGrant { grant: input.login_grant.clone(), email }
        } else {
            match look_up(&*registry, input, node, email.as_str()) {
                LoginAction::MakeIdentity => bring_about(
                    registry,
                    input,
                    node,
                    email.as_str(),
                    identity,
                ),
                other => other,
            }
        },
    }
}

// ---------------------------------------------------------------- laws

/// A creature that a login brought about is found again by the next login with its address:
/// with the same record, session, and key.
pub proof fn law_logging_in_again_finds_the_same_creature(
    state: RegistryState,
    input: LoginInput,
    again: LoginInput,
    node: Seq<char>,
    progress: LoginProgress,
    identity: NewIdentity,
)
    requires
        identity.id@.len() > 0,
        known(state, address_of(input, progress.grant_mode)) is None,
        address_of(again, progress.grant_mode) == address_of(input, progress.grant_mode),
        !progress.lacks_grant(),
    ensures
        ({
            let (after, action) = logged_in(
                state,
                input,
                node,
                progress,
                LoginEvent::Made { identity },
            );
            action is Answer ==> logged_in(after, again, node, progress, LoginEvent::Asked) == (
                after,
                action,
            )
        }),
{
    let email = address_of(input, progress.grant_mode);
    crate::creature::identity::lemma_identity_keys(email, identity.id@, identity.id@);
}

/// Whoever an address leads to is answered with nobody else's key, and nothing changes,
/// whatever happens to a login that may use the address.
pub proof fn law_a_known_address_leads_to_its_own_key(
    state: RegistryState,
    input: LoginInput,
    node: Seq<char>,
    progress: LoginProgress,
    event: LoginEvent,
    user: Creature,
)
    requires
        known(state, address_of(input, progress.grant_mode)) == Some(user),
        !moved_on(progress, event).lacks_grant(),
        event !is Denied,
    ensures
        logged_in(state, input, node, progress, event).0 == state,
        logged_in(state, input, node, progress, event).1 matches Action::Answer {
            user: told,
            private_key,
            ..
        } && told == user && private_key == link_of(state.identities, private_key_key(user.id)),
{
}

/// A node in grant mode tells nobody a key, and takes nobody in, before their grant was found
/// good: whatever else happens to the login, it is refused or has to show its grant for its own
/// address, nothing changes, and the grant still counts as lacking.
pub proof fn law_grant_mode_asks_for_a_grant(
    state: RegistryState,
    input: LoginInput,
    node: Seq<char>,
    progress: LoginProgress,
    event: LoginEvent,
)
    requires
        progress.lacks_grant(),
        event !is Granted,
    ensures
        logged_in(state, input, node, progress, event).0 == state,
        logged_in(state, input, node, progress, event).1 == grant_asked(input)
            || logged_in(state, input, node, progress, event).1 is Refuse,
        moved_on(progress, event) == progress,
{
}

/// An address whose creature is gone can be bound to a new one.
pub proof fn law_a_stale_address_is_bound_anew(
    state: RegistryState,
    input: LoginInput,
    node: Seq<char>,
    progress: LoginProgress,
    identity: NewIdentity,
)
    requires
        known(state, address_of(input, progress.grant_mode)) is None,
    ensures
        ({
            let (after, action) = logged_in(
                state,
                input,
                node,
                progress,
                LoginEvent::Made { identity },
            );
            action is Answer ==> lookup(
                after.identities,
                email_key(address_of(input, progress.grant_mode)),
            ) == Some(identity.id@)
        }),
{
    let email = address_of(input, progress.grant_mode);
    crate::creature::identity::lemma_identity_keys(email, identity.id@, identity.id@);
}

} // verus!
