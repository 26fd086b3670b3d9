use aseman_node::creature::directory::{
    CreatureFault, CreatureRecord, Creatures, MetadataKind, replace_metadata,
    replace_metadata_value,
};
use aseman_node::creature::identity::{
    answer_check_sign, bind_identity, check_sign, expected_username, forget_identity, login_email,
};
use aseman_node::creature::login::{
    login, LoginAction, LoginEvent, LoginInput, LoginProgress, NewIdentity,
};
use aseman_node::creature::registry::{CreateRefusal, Registry};
use aseman_node::creature::secrets::{
    list_granted_secrets, refuse_secret_put, secret_get, secret_grant, secret_list, secret_put,
    secret_revoke, secret_value, valid_component, SecretGrantInput,
};
use aseman_node::creature::signals::{signal, SignalInput, SignalPlan};
use aseman_node::creature::types::{
    creature_types, install_creature_types, migrate_legacy_human_balance, put_creature_type,
    put_creature_type_text, resolve_initial_balance,
};
use aseman_node::creature::uploads::{
    owner_sidecar, place_upload, storage_upload, type_sidecar, upload_decoded, MAX_UPLOAD,
};
use aseman_node::json::Json;
use aseman_node::store::membership::{is_member, join, Stores};
use aseman_node::store::permissions::StorePermissions;
use aseman_node::table::Table;

fn s(value: &str) -> String {
    value.to_string()
}

fn record(id: &str, kind: &str, username: &str, owner: &str) -> CreatureRecord {
    CreatureRecord {
        id: s(id),
        creature_type: s(kind),
        username: s(username),
        public_key: s("pem"),
        chain_id: s("main"),
        subchain_id: s("main"),
        owner_id: s(owner),
    }
}

fn refused<T>(r: Result<T, String>) -> String {
    match r {
        Ok(_) => panic!("expected a refusal"),
        Err(e) => e,
    }
}

#[test]
fn owner_links_follow_the_record() {
    let mut creatures = Creatures::new();
    fn link(creatures: &Creatures, owner: &str) -> String {
        creatures.links.get(&format!("ownerof::{owner}::3@global")).cloned().unwrap_or_default()
    }
    let mut machine = record("3@global", "machine", "bot@global", "1@global");
    creatures.create(&machine).unwrap();
    assert_eq!(link(&creatures, "1@global"), "true");
    machine.owner_id = "2@global".into();
    creatures.update(&machine).unwrap();
    assert_eq!(
        (link(&creatures, "1@global").as_str(), link(&creatures, "2@global").as_str()),
        ("", "true")
    );
    machine.creature_type = "human".into();
    creatures.update(&machine).unwrap();
    assert_eq!(link(&creatures, "2@global"), "");
    machine.creature_type = "machine".into();
    creatures.update(&machine).unwrap();
    assert_eq!(link(&creatures, "2@global"), "true");
    creatures.delete(&machine.id);
    assert_eq!(link(&creatures, "2@global"), "");
}

#[test]
fn legacy_creatures_pass_the_directory_conformance_suite() {
    let mut creatures = Creatures::new();
    creatures.create(&record("1@conformance", "human", "alice@conformance", "")).unwrap();
    creatures.open_balance("1@conformance", 10).unwrap();
    creatures.create(&record("2@conformance", "machine", "bot@conformance", "1@conformance")).unwrap();
    assert_eq!(
        creatures.create(&record("3@conformance", "human", "alice@conformance", "")),
        Err(CreatureFault::Conflict)
    );
    creatures.delete("2@conformance");
    assert!(creatures.creature("2@conformance").is_none());
    assert_eq!(creatures.account("1@conformance").unwrap().balance, 10);
    assert_eq!(
        creatures.creature_id_by_username("alice@conformance"),
        Some(s("1@conformance"))
    );
}

#[test]
fn accounts_write_only_the_balance_and_never_create_ghost_creatures() {
    let mut creatures = Creatures::new();
    assert!(creatures.account("9@global").is_none());
    let ghost = creatures.account_or_empty("9@global");
    assert_eq!(ghost.balance, 0);
    assert!(creatures.store_account(&ghost).is_err());
    assert!(!creatures.records.has("9@global"));

    creatures.create(&record("2@global", "human", "alice@global", "")).unwrap();
    creatures.open_balance("2@global", 5).unwrap();
    let mut account = creatures.account("2@global").unwrap();
    assert_eq!(account.balance, 5);
    account.balance = 12;
    creatures.store_account(&account).unwrap();
    let stored = creatures.creature("2@global").unwrap();
    assert_eq!(
        (creatures.account("2@global").unwrap().balance, stored.username.as_str()),
        (12, "alice@global")
    );
}

#[test]
fn names_and_ids_are_taken_once() {
    let mut creatures = Creatures::new();
    creatures.create(&record("1@global", "human", "alice@global", "")).unwrap();
    assert_eq!(
        creatures.create(&record("1@global", "human", "bob@global", "")),
        Err(CreatureFault::Conflict)
    );
    assert_eq!(
        creatures.create(&record("2@global", "human", "alice@global", "")),
        Err(CreatureFault::Conflict)
    );
    assert_eq!(
        creatures.update(&record("9@global", "human", "x@global", "")),
        Err(CreatureFault::NotFound)
    );
    assert_eq!(creatures.creature_id_by_username("alice@global"), Some(s("1@global")));
    assert_eq!(creatures.open_balance("9@global", 1), Err(CreatureFault::NotFound));
    creatures.open_balance("1@global", 10).unwrap();
    assert_eq!(creatures.open_balance("1@global", 1), Err(CreatureFault::Conflict));
    creatures.close_balance("1@global");
    assert_eq!(creatures.account("1@global").unwrap().balance, 0);
    creatures.update(&record("1@global", "human", "ada@global", "")).unwrap();
    assert_eq!(creatures.creature_id_by_username("alice@global"), None);
    assert_eq!(creatures.creature_id_by_username("ada@global"), Some(s("1@global")));
}

#[test]
fn creatures_are_listed_by_id() {
    let mut creatures = Creatures::new();
    creatures.create(&record("3@global", "machine", "c@global", "1@global")).unwrap();
    creatures.create(&record("1@global", "human", "a@global", "")).unwrap();
    creatures.create(&record("2@global", "machine", "b@global", "1@global")).unwrap();
    let ids = |kind: Option<&str>| {
        creatures.creatures(kind).into_iter().map(|c| c.id).collect::<Vec<_>>()
    };
    assert_eq!(ids(None), ["1@global", "2@global", "3@global"]);
    assert_eq!(ids(Some("machine")), ["2@global", "3@global"]);
}

#[test]
fn types_say_what_creatures_start_with() {
    let mut types = Table::new();
    install_creature_types(&mut types);
    install_creature_types(&mut types);
    assert_eq!(types.len(), 2);
    assert_eq!(resolve_initial_balance(&types, "human"), Ok(0));
    assert!(resolve_initial_balance(&types, "ghost").is_err());
    let grant = Json::Object(vec![(s("initialBalance"), Json::Whole(1_000_000_000_000_000))]);
    assert_eq!(put_creature_type(&mut types, "human", &grant), Ok(()));
    assert_eq!(resolve_initial_balance(&types, "human"), Ok(1_000_000_000_000_000));
    migrate_legacy_human_balance(&mut types);
    assert_eq!(resolve_initial_balance(&types, "human"), Ok(0));
    assert!(put_creature_type(&mut types, "odd", &Json::Null).is_err());
    assert_eq!(put_creature_type_text(&mut types, "bot", "{\"initialBalance\":5}"), Ok(()));
    assert_eq!(types.get("bot").unwrap().whole("initialBalance"), Some(5));
    assert_eq!(
        put_creature_type_text(&mut types, "odd", "[]"),
        Err(s("a creature type spec must be a JSON object"))
    );
    let listed = creature_types(&types);
    assert_eq!(listed[1].text("name"), Some("machine"));
}

fn registry() -> Registry {
    let mut types = Table::new();
    install_creature_types(&mut types);
    let paid = Json::Object(vec![(s("initialBalance"), Json::Whole(25))]);
    put_creature_type(&mut types, "guest", &paid).unwrap();
    Registry {
        creatures: Creatures::new(),
        types,
        metadata: Table::new(),
        stores: Stores { records: Table::new(), metadata: Table::new(), links: Table::new() },
        identities: Table::new(),
        sessions: Table::new(),
    }
}

#[test]
fn creatures_come_and_go_with_all_that_is_theirs() {
    let mut r = registry();
    let about = Json::Object(vec![(s("bio"), Json::Text(s("hi")))]);
    assert!(matches!(r.create(&record("5@global", "guest", "g@global", ""), "session-5", &about), Ok(25)));
    assert!(matches!(
        r.create(&record("5@global", "guest", "h@global", ""), "session-6", &about),
        Err(CreateRefusal::Taken)
    ));
    assert!(matches!(
        r.create(&record("6@global", "ghost", "h@global", ""), "session-6", &about),
        Err(CreateRefusal::Type(_))
    ));
    bind_identity(&mut r.identities, "g@mail", "5@global", "key");
    join(&mut r.stores.links, "s1", "5@global", StorePermissions::member());
    assert_eq!(r.meta("5@global").unwrap().text("bio"), Some("hi"));
    let told = r.authenticate("5@global").unwrap();
    let user = told.field("user").unwrap();
    assert_eq!(user.whole("balance"), Some(25));
    assert_eq!(user.text("username"), Some("g@global"));

    assert_eq!(r.delete("5@global"), Ok(()));
    assert_eq!(refused(r.delete("5@global")), "user not found");
    assert_eq!(refused(r.meta("5@global")), "user not found");
    assert!(r.authenticate("5@global").is_none());
    assert!(!is_member(&r.stores.links, "s1", "5@global"));
    assert_eq!(r.identities.len(), 0);
    assert_eq!(r.metadata.len(), 0);
}

#[test]
fn metadata_that_is_no_object_is_ignored() {
    let mut documents = Table::new();
    replace_metadata_value(&mut documents, MetadataKind::User, "1@global", &Json::Whole(1));
    assert_eq!(documents.len(), 0);
    let none = Json::Object(vec![]);
    replace_metadata_value(&mut documents, MetadataKind::Creature, "1@global", &none);
    assert!(documents.has("CreatMeta::1@global"));
    assert_eq!(
        replace_metadata(&mut documents, MetadataKind::User, "2@global", "{\"bio\":\"hi\"}"),
        Ok(())
    );
    assert_eq!(documents.get("UserMeta::2@global").unwrap().text("bio"), Some("hi"));
    assert_eq!(
        replace_metadata(&mut documents, MetadataKind::User, "2@global", "3"),
        Err(s("metadata must be a JSON object"))
    );
}

fn ada() -> LoginInput {
    LoginInput {
        email_token: s(" Ada@Example.Org "),
        username: s("ada"),
        login_grant: s("grant-1"),
        metadata: Json::Object(vec![(s("bio"), Json::Text(s("hi")))]),
    }
}

fn identity(id: &str) -> NewIdentity {
    NewIdentity {
        id: s(id),
        session_id: s("session-1"),
        public_key: b"public".to_vec(),
        private_key: b"private".to_vec(),
    }
}

#[test]
fn logging_in_again_finds_the_same_creature() {
    assert_eq!(login_email(" Ada@Example.Org ", "ada", true), "ada@example.org");
    assert_eq!(login_email("", "ada", false), "ada@dev.local");
    assert_eq!(login_email("token", "ada", false), "ada@dev.local");
    assert_eq!(login_email(" Ada@Example.Org", "ada", false), "Ada@Example.Org");
    assert_eq!(expected_username("ada", "global"), "ada@global");
    let mut r = registry();
    let asked = || LoginEvent::Asked;
    let made = |id: &str| LoginEvent::Made { identity: identity(id) };
    let step = |r: &mut Registry, input: &LoginInput, event: LoginEvent| {
        login(r, input, "global", &mut LoginProgress::begin(false), event)
    };
    assert!(matches!(step(&mut r, &ada(), asked()), LoginAction::MakeIdentity));
    assert_eq!(r.identities.len(), 0);
    match step(&mut r, &ada(), made("7@global")) {
        LoginAction::Answer { user, balance, session_id, private_key } => {
            assert_eq!((user.id.as_str(), user.username.as_str()), ("7@global", "ada@global"));
            assert_eq!((user.creature_type.as_str(), balance), ("human", 0));
            assert_eq!((session_id.as_str(), private_key.as_str()), ("session-1", "private"));
        }
        _ => panic!("the creature is new"),
    }
    assert_eq!(r.meta("7@global").unwrap().text("bio"), Some("hi"));
    match step(&mut r, &ada(), asked()) {
        LoginAction::Answer { user, session_id, private_key, .. } => {
            assert_eq!(user.id, "7@global");
            assert_eq!((session_id.as_str(), private_key.as_str()), ("session-1", "private"));
        }
        _ => panic!("the creature is known"),
    }
    // Another address does not get the user name.
    let other = LoginInput { email_token: s("eve@example.org"), ..ada() };
    match step(&mut r, &other, asked()) {
        LoginAction::Refuse { reason } => assert_eq!(reason, "username already exist"),
        _ => panic!("the user name is taken"),
    }
    // The creature is gone but its address is not: the address is bound anew.
    r.creatures.delete("7@global");
    r.creatures.close_balance("7@global");
    assert!(matches!(step(&mut r, &ada(), asked()), LoginAction::MakeIdentity));
    assert!(matches!(
        step(&mut r, &ada(), made("8@global")),
        LoginAction::Answer { .. }
    ));
    assert_eq!(r.identities.get("UserEmailToId::Ada@Example.Org").unwrap(), "8@global");
    let mut links = Table::new();
    bind_identity(&mut links, "a@b", "7@global", "key");
    forget_identity(&mut links, "7@global");
    assert_eq!(links.len(), 0);
}

#[test]
fn a_node_in_grant_mode_asks_for_a_grant_first() {
    let mut r = registry();
    let made = |id: &str| LoginEvent::Made { identity: identity(id) };
    let mut progress = LoginProgress::begin(true);
    match login(&mut r, &ada(), "global", &mut progress, LoginEvent::Asked) {
        LoginAction::UseGrant { grant, email } => {
            assert_eq!((grant.as_str(), email.as_str()), ("grant-1", "ada@example.org"));
        }
        _ => panic!("a grant is needed"),
    }
    let denied = LoginEvent::Denied { reason: s("grant expired") };
    match login(&mut r, &ada(), "global", &mut progress, denied) {
        LoginAction::Refuse { reason } => assert_eq!(reason, "grant expired"),
        _ => panic!("the grant was refused"),
    }
    // Keys do not stand in for the grant.
    assert!(matches!(
        login(&mut r, &ada(), "global", &mut progress, made("7@global")),
        LoginAction::UseGrant { .. }
    ));
    assert_eq!(r.identities.len(), 0);
    assert!(matches!(
        login(&mut r, &ada(), "global", &mut progress, LoginEvent::Granted),
        LoginAction::MakeIdentity
    ));
    assert_eq!(progress, LoginProgress { grant_mode: true, granted: true });
    assert!(matches!(
        login(&mut r, &ada(), "global", &mut progress, made("7@global")),
        LoginAction::Answer { .. }
    ));
    assert!(r.identities.has("UserEmailToId::ada@example.org"));
    // The next login for the same address needs a grant of its own.
    assert!(matches!(
        login(&mut r, &ada(), "global", &mut LoginProgress::begin(true), LoginEvent::Asked),
        LoginAction::UseGrant { .. }
    ));
    let eve = LoginInput { username: s("eve"), email_token: s("eve@x"), ..ada() };
    assert!(matches!(
        login(&mut r, &eve, "global", &mut progress, made("7@global")),
        LoginAction::NotCreated { refusal: CreateRefusal::Taken }
    ));
    assert!(!r.identities.has("UserEmailToId::eve@x"));
}

#[test]
fn signatures_are_checked_for_the_platform_alone() {
    assert_eq!(refused(check_sign("2@global", "AAEC")), "access denied");
    assert_eq!(check_sign("1@global", "AAEC"), Ok(Some(vec![0, 1, 2])));
    assert_eq!(check_sign("1@global", "%%"), Ok(None));
    let mut links = Table::new();
    bind_identity(&mut links, "a@b", "7@global", "key");
    assert_eq!(answer_check_sign(&links, "7@global", true).text("email"), Some("a@b"));
    assert!(answer_check_sign(&links, "7@global", false).field("email").is_none());
}

#[test]
fn secrets_open_to_their_grantees_until_the_grant_ends() {
    let now: i64 = 1_000_000;
    let mut links = Table::new();
    assert!(valid_component("api-key"));
    assert!(!valid_component(""));
    assert!(!valid_component("a::b"));
    assert!(refuse_secret_put("1@global", "k", "v").is_none());
    assert!(refuse_secret_put("", "k", "v").is_some());
    assert_eq!(secret_put(&mut links, "1@global", "k", "v", "sealed"), Ok(()));
    match secret_get(&links, "1@global", "", "k", now) {
        Ok((owner, blob)) => assert_eq!((owner.as_str(), blob.as_str()), ("1@global", "sealed")),
        Err(e) => panic!("{e}"),
    }
    assert_eq!(secret_value("señal".as_bytes().to_vec()), Ok(s("señal")));
    assert_eq!(secret_value(vec![0xff, 0x41]), Err(s("stored secret is not valid UTF-8")));
    assert!(secret_get(&links, "2@global", "1@global", "k", now).is_err());
    let grant = SecretGrantInput { name: s("k"), grantee: s("2@global"), ttl_seconds: 60 };
    assert_eq!(secret_grant(&mut links, "1@global", &grant, now), Ok(1_060_000));
    assert!(secret_get(&links, "2@global", "1@global", "k", now).is_ok());
    assert!(secret_get(&links, "2@global", "1@global", "k", 1_060_001).is_err());
    let granted = list_granted_secrets(&links, "2@global", now);
    assert_eq!(granted.len(), 1);
    assert_eq!((granted[0].owner.as_str(), granted[0].expires_at), ("1@global", 1_060_000));
    assert_eq!(secret_revoke(&mut links, "1@global", "k", "2@global"), Ok(()));
    assert!(secret_get(&links, "2@global", "1@global", "k", now).is_err());
    assert!(list_granted_secrets(&links, "2@global", now).is_empty());
    assert_eq!(secret_list(&links, "1@global"), Ok(vec![s("k")]));
}

fn direct() -> SignalInput {
    SignalInput {
        typ: s("pvp"),
        creature_id: s("2@global"),
        program_id: s(""),
        entity_id: s("main"),
        store_id: s("s1"),
        correlation_id: s("c1"),
        data: s("{}"),
        temp: false,
    }
}

#[test]
fn signals_go_to_a_store_or_to_one_creature() {
    let all = SignalInput { typ: s("all"), ..direct() };
    assert!(matches!(
        signal(&all, "s1", true),
        Ok(SignalPlan::Broadcast { store_id }) if store_id == "s1"
    ));
    assert_eq!(refused(signal(&all, "", true)), "storeId is required for broadcast");
    assert_eq!(refused(signal(&all, "s1", false)), "not allowed to signal in this store");
    assert_eq!(
        refused(signal(&SignalInput { typ: s("x"), ..direct() }, "", true)),
        "unknown signal type"
    );
    assert_eq!(
        refused(signal(&SignalInput { creature_id: s(""), ..direct() }, "", true)),
        "creatureId is required for pvp"
    );
    match signal(&SignalInput { program_id: s("9@global"), ..direct() }, "", false) {
        Ok(SignalPlan::Direct { target_id, entity_id, .. }) => {
            assert_eq!((target_id.as_str(), entity_id.as_str()), ("9@global", "main"));
        }
        _ => panic!("the signal is direct"),
    }
    match signal(&direct(), "", false) {
        Ok(SignalPlan::Direct { target_id, .. }) => assert_eq!(target_id, "2@global"),
        _ => panic!("the signal is direct"),
    }
}

#[test]
fn uploads_are_checked() {
    match storage_upload("1@global", " AAEC ", " image/png ") {
        Ok(u) => assert_eq!((u.data, u.content_type), (vec![0, 1, 2], s("image/png"))),
        Err(e) => panic!("{e}"),
    }
    match storage_upload("1@global", "AAEC", "  ") {
        Ok(u) => assert_eq!(u.content_type, "application/octet-stream"),
        Err(e) => panic!("{e}"),
    }
    assert_eq!(refused(storage_upload("", "AAEC", "")), "not authenticated");
    assert_eq!(refused(storage_upload("1@global", "%", "")), "dataBase64 is not valid base64");
    assert_eq!(refused(storage_upload("1@global", "", "")), "empty file");
    let large = vec![0u8; MAX_UPLOAD + 1];
    assert_eq!(
        refused(upload_decoded("1@global", Ok(large), "")),
        "file too large (max 10485760 bytes)"
    );
    assert_eq!(type_sidecar("x"), "x.type");
    assert_eq!(owner_sidecar("x"), "x.owner");
}

#[test]
fn uploads_get_a_name_of_their_own() {
    match place_upload("1@global", "AAEC", "image/png") {
        Ok((id, upload)) => {
            assert_eq!(id.len(), 36);
            assert!(!id.contains('/') && !id.contains('.'));
            assert_eq!(upload.data, vec![0, 1, 2]);
        }
        Err(e) => panic!("{e}"),
    }
    assert_eq!(refused(place_upload("", "AAEC", "")), "not authenticated");
}
