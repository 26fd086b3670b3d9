use aseman_node::authority::{
    audit_entry, authorize_host_call, authorize_shell_action, decide_surface, host_call_request,
    host_caller, owner_user, resolve_facts, shape_guest_creation, shell_action_request,
    shell_caller, target_id, Decision, Facts, PolicyRequest, Registered, Standing,
    Subject, SubjectKind,
};
use aseman_node::creature::directory::{CreatureRecord, Creatures};
use aseman_node::json::Json;
use aseman_node::program::catalog::Programs;
use aseman_node::program::deploy::ProgramRecord;
use aseman_node::program::machines::{MachineRecord, ProgramMachines};
use aseman_node::store::membership::join;
use aseman_node::store::permissions::StorePermissions;
use aseman_node::table::Table;

fn s(value: &str) -> String {
    value.to_string()
}

fn text(value: &str) -> Json {
    Json::Text(s(value))
}

fn object(fields: Vec<(&str, Json)>) -> Json {
    Json::Object(fields.into_iter().map(|(k, v)| (k.to_string(), v)).collect())
}

/// Programs `p-alice`/`p-alice-2` and machine `m-alice` belong to user `alice`; `p-bob` and
/// `m-bob` to `bob`. Alice manages store `s-alice`; bob only reads it. VM `vm-alice-7` was
/// launched by `p-alice-2`, `vm-bob-1` by `p-bob`.
struct World {
    creatures: Creatures,
    programs: Programs,
    links: Table<String>,
    store_links: Table<String>,
    resource_stores: Table<String>,
}

impl World {
    fn standing(&self) -> Standing<'_> {
        Standing {
            creatures: &self.creatures,
            programs: &self.programs,
            links: &self.links,
            store_links: &self.store_links,
            resource_stores: &self.resource_stores,
            everyone: "0@global",
        }
    }
}

fn creature(id: &str, kind: &str, owner: &str) -> CreatureRecord {
    CreatureRecord {
        id: s(id),
        creature_type: s(kind),
        username: format!("{id}@node"),
        public_key: s(""),
        chain_id: s(""),
        subchain_id: s(""),
        owner_id: s(owner),
    }
}

fn world() -> World {
    let mut creatures = Creatures::new();
    for user in ["alice", "bob", "1@global"] {
        creatures.create(&creature(user, "human", "0@global")).unwrap();
    }
    creatures.create(&creature("m-alice", "machine", "alice")).unwrap();
    creatures.create(&creature("m-bob", "machine", "bob")).unwrap();
    let mut programs = Programs::new();
    for (id, machine) in [("p-alice", "m-alice"), ("p-alice-2", "m-alice"), ("p-bob", "m-bob")] {
        programs.create_program(ProgramRecord {
            id: s(id),
            machine_id: s(machine),
            runtime: s("wasm"),
            path: s(""),
            comment: s(""),
        });
    }
    let mut links = Table::new();
    links.put("VmOwnerProgram::vm-alice-7", s("p-alice-2"));
    links.put("VmOwnerProgram::vm-bob-1", s("p-bob"));
    let mut store_links = Table::new();
    join(&mut store_links, "s-alice", "alice", StorePermissions::owner());
    join(
        &mut store_links,
        "s-alice",
        "bob",
        StorePermissions { read: true, signal: false, manage: false },
    );
    let mut resource_stores = Table::new();
    resource_stores.put("rs-alice", s("m-alice"));
    resource_stores.put("rs-bob", s("m-bob"));
    World { creatures, programs, links, store_links, resource_stores }
}

fn guest_facts(program: &str, action: &str, resource: &str, input: Json) -> Facts {
    let records = world();
    let w = records.standing();
    let caller = host_caller(&w, &format!("vm-{program}"), program, program);
    resolve_facts(&w, action, resource, &caller, &input)
}

fn signed_facts(user: &str, action: &str, resource: &str, input: Json) -> Facts {
    let records = world();
    let w = records.standing();
    let caller = shell_caller(&w, user);
    resolve_facts(&w, action, resource, &caller, &input)
}

fn allowed() -> Decision {
    Decision { allowed: true, reason: s("ok") }
}

fn denied() -> Decision {
    Decision { allowed: false, reason: s("not_owner") }
}

#[test]
fn requests_name_their_resource_so_grants_match_only_it() {
    assert_eq!(
        target_id("network", &object(vec![("url", text("https://api.example:8443/v1/chat"))])),
        "api.example"
    );
    assert_eq!(target_id("network", &object(vec![("url", text("not a url"))])), "");
    assert_eq!(target_id("store", &object(vec![("storeId", text("s1"))])), "s1");
    assert_eq!(target_id("program", &object(vec![("programId", text("p1"))])), "p1");
    assert_eq!(target_id("guest_data", &object(vec![("key", text("k"))])), "");
}

#[test]
fn creatures_are_their_owners() {
    let own = guest_facts(
        "p-alice",
        "creature.update",
        "creature",
        object(vec![("id", text("m-alice"))]),
    );
    assert!(own.owner);
    let other = guest_facts(
        "p-alice",
        "creature.update",
        "creature",
        object(vec![("id", text("m-bob"))]),
    );
    assert!(!other.owner && !other.same_creature);
    let none = guest_facts("p-alice", "creature.update", "creature", object(vec![]));
    assert!(!none.owner);
}

#[test]
fn stores_follow_membership() {
    let input = || object(vec![("storeId", text("s-alice"))]);
    let alice = guest_facts("p-alice", "store.update", "store", input());
    assert!(alice.store_manage && alice.store_signal && alice.store_read);
    let bob = guest_facts("p-bob", "store.signal", "store", input());
    assert!(bob.store_read && !bob.store_signal && !bob.store_manage);
    let signer = signed_facts("bob", "store.history.read", "store", input());
    assert!(signer.store_read && !signer.store_manage);
}

#[test]
fn workloads_and_resource_stores_follow_ownership() {
    let vm = |vm: &str| object(vec![("vmId", text(vm))]);
    assert!(guest_facts("p-alice", "workload.stop", "workload", vm("vm-alice-7")).owner);
    assert!(!guest_facts("p-alice", "workload.exec", "workload", vm("vm-bob-1")).owner);
    let store = |id: &str| object(vec![("storeId", text(id))]);
    assert!(guest_facts("p-alice", "resource_store.update", "resource_store", store("rs-alice")).owner);
    assert!(!guest_facts("p-alice", "resource_store.delete", "resource_store", store("rs-bob")).owner);
}

#[test]
fn callers_are_known_by_the_records() {
    let records = world();
    let w = records.standing();
    let guest = host_caller(&w, "vm-alice-7", "p-alice-2", "m-alice");
    assert_eq!(guest.principal, "alice");
    assert_eq!(guest.ids, ["p-alice-2", "m-alice"]);
    let user = shell_caller(&w, "alice");
    assert_eq!(user.principal, "alice");
    assert!(matches!(user.subject, Some(Subject { kind: SubjectKind::User, .. })));
    let machine = shell_caller(&w, "m-bob");
    assert_eq!(machine.principal, "bob");
    assert!(matches!(machine.subject, Some(Subject { kind: SubjectKind::Creature, .. })));
    // A program whose record names no machine is found through the link of its machine.
    let mut records = world();
    records.programs.create_program(ProgramRecord {
        id: s("p-old"),
        machine_id: s(""),
        runtime: s("wasm"),
        path: s(""),
        comment: s(""),
    });
    assert_eq!(host_caller(&records.standing(), "", "p-old", "").principal, "");
    records.links.put("machinePrograms::m-bob::p-old", s("true"));
    assert_eq!(host_caller(&records.standing(), "", "p-old", "").principal, "bob");
    records.links.put("machinePrograms::m-alice::p-old", s("true"));
    assert_eq!(host_caller(&records.standing(), "", "p-old", "").principal, "");
}

#[test]
fn only_the_root_administers() {
    assert!(signed_facts("1@global", "account.mint", "account", object(vec![])).node_admin);
    assert!(!signed_facts("alice", "account.mint", "account", object(vec![])).node_admin);
    assert!(!signed_facts("", "account.mint", "account", object(vec![])).node_admin);
}

#[test]
fn guests_create_only_for_their_owner() {
    match shape_guest_creation("createCreature", "alice", object(vec![("id", text("new"))])) {
        Ok(created) => assert_eq!(created.text("ownerId"), Some("alice")),
        Err(e) => panic!("{e}"),
    }
    let funded = object(vec![("id", text("x")), ("balance", Json::Whole(100))]);
    assert!(shape_guest_creation("createCreature", "alice", funded).is_err());
    let foreign = object(vec![("id", text("x")), ("ownerId", text("bob"))]);
    assert!(shape_guest_creation("createCreature", "alice", foreign).is_err());
    assert!(shape_guest_creation("createCreature", "", object(vec![("id", text("x"))])).is_err());
    assert!(shape_guest_creation("getCreature", "", object(vec![])).is_ok());
}

#[test]
fn unregistered_surfaces_are_refused() {
    let records = world();
    let w = records.standing();
    let caller = host_caller(&w, "vm-p-alice", "p-alice", "p-alice");
    let surfaces = registry();
    let unknown =
        authorize_host_call(&surfaces, "teleport", &allowed(), &caller, object(vec![]));
    match unknown {
        Err(e) => assert_eq!(e, "unregistered surface unified-host-call teleport"),
        Ok(_) => panic!("nobody teleports"),
    }
    assert!(authorize_shell_action(&surfaces, "/nowhere", &allowed()).is_err());
    assert!(authorize_shell_action(&surfaces, "/creatures/get", &allowed()).is_ok());
    assert_eq!(
        authorize_shell_action(&surfaces, "/creatures/delete", &denied()),
        Err(s("not authorized: creature.delete (not_owner)"))
    );
    match shell_action_request(&w, &surfaces, "/nowhere", "alice", &object(vec![]), 7) {
        Err(e) => assert_eq!(e, "unregistered surface signed-shell-action /nowhere"),
        Ok(_) => panic!("nowhere is registered"),
    }
}

#[test]
fn the_policy_is_asked_about_the_caller_and_the_resource() {
    let records = world();
    let w = records.standing();
    let surfaces = registry();
    let caller = host_caller(&w, "vm-p-alice", "p-alice", "p-alice");
    let egress = with("url", "https://api.example:8443/v1/chat");
    match host_call_request(&w, &surfaces, "httpRequest", &caller, &egress, 1_800_000_000_000) {
        Ok(request) => {
            assert_eq!(request.action, "network.egress");
            assert_eq!(request.resource_kind, "network");
            assert_eq!(request.resource_id, "api.example");
            assert_eq!(request.subject.map(|subject| subject.name), Some(s("vm-p-alice")));
            assert_eq!(request.at_millis, 1_800_000_000_000);
        }
        Err(e) => panic!("{e}"),
    }
    let input = with("id", "m-bob");
    match shell_action_request(&w, &surfaces, "/creatures/delete", "alice", &input, 5) {
        Ok(request) => {
            assert_eq!(request.resource_id, "m-bob");
            assert!(!request.facts.owner);
            let entry = audit_entry(&request, &denied());
            assert_eq!(entry.action, "creature.delete");
            assert_eq!(entry.target, "creature:m-bob");
            assert_eq!(entry.decision, "not_owner");
            assert_eq!(entry.occurred_at_millis, 5);
            assert!(!entry.shadow);
        }
        Err(e) => panic!("{e}"),
    }
}

#[test]
fn shadowed_refusals_are_recorded_but_not_enforced() {
    let surfaces = registry();
    assert!(decide_surface(&surfaces, "unified-host-call httpRequest", &denied()).is_ok());
    assert!(decide_surface(&surfaces, "signed-shell-action /creatures/login", &denied()).is_ok());
    let records = world();
    let w = records.standing();
    let caller = host_caller(&w, "vm-p-alice", "p-alice", "p-alice");
    let egress = with("url", "https://api.example");
    match host_call_request(&w, &surfaces, "httpRequest", &caller, &egress, 1) {
        Ok(request) => {
            let entry = audit_entry(&request, &denied());
            assert_eq!(entry.target, "network:api.example");
            assert!(entry.shadow);
            assert!(!audit_entry(&request, &allowed()).shadow);
        }
        Err(e) => panic!("{e}"),
    }
}

fn machine(id: &str, owner: &str) -> MachineRecord {
    MachineRecord { id: s(id), owner_id: s(owner), local_part: s("m") }
}

#[test]
fn owners_are_found_through_machines() {
    let program = |owner: &str, linked: Vec<MachineRecord>| ProgramMachines {
        recorded: machine("m", owner),
        linked,
    };
    let recorded = program("alice", vec![]);
    assert_eq!(owner_user("p", Some(&recorded), "x", "0@global"), "alice");
    assert_eq!(owner_user("c", None, "bob", "0@global"), "bob");
    assert_eq!(owner_user("c", None, "0@global", "0@global"), "");
    assert_eq!(owner_user("", Some(&recorded), "", "0@global"), "");
    let linked = program("", vec![machine("n", "bob")]);
    assert_eq!(owner_user("p", Some(&linked), "x", "0@global"), "bob");
    let unclear = program("", vec![machine("n", "bob"), machine("o", "bob")]);
    assert_eq!(owner_user("p", Some(&unclear), "x", "0@global"), "");
}

/// Whom an action is for.
#[derive(Clone, Copy)]
enum Rule {
    Anyone,
    Nobody,
    Identified,
    Owner,
    Reader,
    Signaller,
    Manager,
    Admin,
}

/// The surfaces of the node: their action, what it acts on, and whom it is for.
const SURFACES: [(&str, &str, &str, Rule); 44] = [
    ("createCreature", "creature.create", "creature", Rule::Identified),
    ("getCreature", "creature.read", "creature", Rule::Identified),
    ("updateCreature", "creature.update", "creature", Rule::Owner),
    ("deleteCreature", "creature.delete", "creature", Rule::Owner),
    ("removeOwnedCreature", "creature.owned.remove", "creature", Rule::Owner),
    ("createStore", "store.create", "store", Rule::Identified),
    ("getStore", "store.read", "store", Rule::Reader),
    ("updateStore", "store.update", "store", Rule::Manager),
    ("deleteStore", "store.delete", "store", Rule::Manager),
    ("createAccess", "store.access.grant", "store", Rule::Manager),
    ("removeAccess", "store.access.revoke", "store", Rule::Manager),
    ("signal", "store.signal", "store", Rule::Signaller),
    ("updateProgram", "program.update", "program", Rule::Owner),
    ("deleteProgram", "program.delete", "program", Rule::Owner),
    ("deployEntity", "program.deploy", "program", Rule::Owner),
    ("terminateVm", "workload.stop", "workload", Rule::Owner),
    ("execVm", "workload.exec", "workload", Rule::Owner),
    ("createResourceStore", "resource_store.create", "resource_store", Rule::Identified),
    ("updateResourceStore", "resource_store.update", "resource_store", Rule::Owner),
    ("deleteResourceStore", "resource_store.delete", "resource_store", Rule::Owner),
    ("createResourceEntity", "resource_store.entity.create", "resource_store", Rule::Owner),
    ("dbOp", "guest_data.access", "guest_data", Rule::Identified),
    ("putJson", "guest_data.access", "guest_data", Rule::Identified),
    ("getJson", "guest_data.access", "guest_data", Rule::Identified),
    ("getByPrefix", "guest_data.access", "guest_data", Rule::Identified),
    ("delKey", "guest_data.access", "guest_data", Rule::Identified),
    ("getLink", "guest_data.access", "guest_data", Rule::Identified),
    ("commitTrx", "guest_data.access", "guest_data", Rule::Identified),
    ("protocolApi", "protocol.api", "node", Rule::Nobody),
    ("httpRequest", "network.egress", "network", Rule::Nobody),
    ("/api/ping", "node.ping", "node", Rule::Anyone),
    ("/creatures/create", "creature.create", "creature", Rule::Anyone),
    ("/creatures/get", "creature.read", "creature", Rule::Identified),
    ("/creatures/update", "creature.update", "creature", Rule::Owner),
    ("/creatures/delete", "creature.delete", "creature", Rule::Owner),
    ("/creatures/mint", "account.mint", "account", Rule::Admin),
    ("/creatures/login", "identity.session.login_by_email", "identity", Rule::Nobody),
    ("/stores/signal", "store.signal", "store", Rule::Signaller),
    ("/stores/history", "store.history.read", "store", Rule::Reader),
    ("/stores/setAccess", "store.access.grant", "store", Rule::Manager),
    ("/programs/update", "program.update", "program", Rule::Owner),
    ("/programs/delete", "program.delete", "program", Rule::Owner),
    ("/programs/get", "program.read", "program", Rule::Identified),
    ("/programs/deploy", "program.deploy", "program", Rule::Owner),
];

fn registry() -> Table<Registered> {
    let mut table = Table::new();
    for (name, action, resource, _) in SURFACES {
        let kind =
            if name.starts_with('/') { "signed-shell-action" } else { "unified-host-call" };
        let entry = Registered { action: s(action), resource: s(resource) };
        table.put(&format!("{kind} {name}"), entry);
    }
    table
}

/// What the policy answers: it goes by the request alone.
fn policy(request: &PolicyRequest, rule: Rule) -> Decision {
    let facts = &request.facts;
    let granted = match rule {
        Rule::Anyone => true,
        Rule::Nobody => false,
        Rule::Identified => request.subject.is_some(),
        Rule::Owner => facts.owner || facts.same_creature || facts.self_resource,
        Rule::Reader => facts.store_read,
        Rule::Signaller => facts.store_signal,
        Rule::Manager => facts.store_manage,
        Rule::Admin => facts.node_admin,
    };
    if granted {
        allowed()
    } else {
        denied()
    }
}

fn rule_of(name: &str) -> Rule {
    SURFACES.iter().find(|row| row.0 == name).map(|row| row.3).unwrap_or(Rule::Nobody)
}

fn guest(op: &str, program: &str, input: Json) -> Result<Json, String> {
    let (records, surfaces) = (world(), registry());
    let w = records.standing();
    let caller = host_caller(&w, &format!("vm-{program}"), program, program);
    let request = host_call_request(&w, &surfaces, op, &caller, &input, 1_800_000_000_000)?;
    let decision = policy(&request, rule_of(op));
    authorize_host_call(&surfaces, op, &decision, &caller, input)
}

fn signed(path: &str, user: &str, input: Json) -> Result<(), String> {
    let (records, surfaces) = (world(), registry());
    let w = records.standing();
    let request = shell_action_request(&w, &surfaces, path, user, &input, 1_800_000_000_000)?;
    let decision = policy(&request, rule_of(path));
    authorize_shell_action(&surfaces, path, &decision)
}

fn with(key: &str, value: &str) -> Json {
    object(vec![(key, text(value))])
}

#[test]
fn guest_creature_crud_is_limited_to_the_callers_owner() {
    assert!(guest("updateCreature", "p-alice", with("id", "m-alice")).is_ok());
    assert!(guest("deleteCreature", "p-alice", with("id", "p-alice-2")).is_ok());
    for op in ["updateCreature", "deleteCreature", "removeOwnedCreature"] {
        assert!(guest(op, "p-alice", with("id", "m-bob")).is_err(), "{op}");
    }
    assert!(guest("updateCreature", "p-alice", object(vec![])).is_err());
    assert!(guest("getCreature", "p-alice", with("id", "m-bob")).is_ok());
    match guest("createCreature", "p-alice", with("id", "new")) {
        Ok(created) => assert_eq!(created.text("ownerId"), Some("alice")),
        Err(e) => panic!("{e}"),
    }
    let funded = object(vec![("id", text("x")), ("balance", Json::Whole(100))]);
    assert!(guest("createCreature", "p-alice", funded).is_err());
    let foreign = object(vec![("id", text("x")), ("ownerId", text("bob"))]);
    assert!(guest("createCreature", "p-alice", foreign).is_err());
    assert!(guest("createCreature", "p-orphan", with("id", "x")).is_err());
}

#[test]
fn guest_stores_and_access_follow_membership() {
    assert!(guest("updateStore", "p-alice", with("storeId", "s-alice")).is_ok());
    assert!(guest("createAccess", "p-alice", with("storeId", "s-alice")).is_ok());
    assert!(guest("deleteStore", "p-alice", with("storeId", "s-alice")).is_ok());
    assert!(guest("getStore", "p-bob", with("storeId", "s-alice")).is_ok());
    for op in ["updateStore", "deleteStore", "createAccess", "removeAccess", "signal"] {
        assert!(guest(op, "p-bob", with("storeId", "s-alice")).is_err(), "{op}");
    }
    assert!(guest("signal", "p-alice", with("storeId", "s-alice")).is_ok());
    assert!(guest("createStore", "p-bob", with("storeId", "fresh")).is_ok());
}

#[test]
fn guest_programs_workloads_and_resource_stores_follow_ownership() {
    assert!(guest("updateProgram", "p-alice", with("programId", "p-alice-2")).is_ok());
    assert!(guest("deleteProgram", "p-alice", with("programId", "p-bob")).is_err());
    assert!(guest("deployEntity", "p-bob", with("programId", "p-alice")).is_err());
    // A sibling program's instance is the owner's; another owner's instance is not.
    assert!(guest("terminateVm", "p-alice", with("vmId", "vm-alice-7")).is_ok());
    assert!(guest("execVm", "p-alice", with("vmId", "vm-bob-1")).is_err());
    assert!(guest("updateResourceStore", "p-alice", with("storeId", "rs-alice")).is_ok());
    assert!(guest("deleteResourceStore", "p-alice", with("storeId", "rs-bob")).is_err());
    assert!(guest("createResourceEntity", "p-bob", with("storeId", "rs-alice")).is_err());
    assert!(guest("createResourceStore", "p-bob", with("storeId", "rs-new")).is_ok());
}

#[test]
fn guest_data_is_served_and_unknown_or_removed_calls_are_refused() {
    for op in ["dbOp", "putJson", "getJson", "getByPrefix", "delKey", "getLink", "commitTrx"] {
        assert!(guest(op, "p-alice", with("key", "k")).is_ok(), "{op}");
    }
    match guest("teleport", "p-alice", object(vec![])) {
        Err(e) => assert_eq!(e, "unregistered surface unified-host-call teleport"),
        Ok(_) => panic!("nobody teleports"),
    }
    assert!(guest("protocolApi", "p-alice", object(vec![])).is_err());
    // Outbound HTTP needs a grant, but is shadowed until grants exist.
    assert!(guest("httpRequest", "p-alice", with("url", "https://api.example")).is_ok());
}

#[test]
fn signed_actions_are_authorized_for_their_signer() {
    // Public actions, and anonymous callers only there.
    assert!(signed("/api/ping", "", object(vec![])).is_ok());
    assert!(signed("/creatures/create", "", object(vec![])).is_ok());
    assert!(signed("/creatures/get", "", with("id", "m-bob")).is_err());
    // A user acts on their own creatures, not another user's.
    assert!(signed("/creatures/update", "alice", with("id", "m-alice")).is_ok());
    assert!(signed("/creatures/delete", "alice", with("id", "m-bob")).is_err());
    assert!(signed("/creatures/delete", "alice", with("id", "alice")).is_ok());
    // Stores by membership.
    assert!(signed("/stores/signal", "alice", with("storeId", "s-alice")).is_ok());
    assert!(signed("/stores/signal", "bob", with("storeId", "s-alice")).is_err());
    assert!(signed("/stores/history", "bob", with("storeId", "s-alice")).is_ok());
    assert!(signed("/stores/setAccess", "bob", with("storeId", "s-alice")).is_err());
    // Programs by their machine's owner.
    assert!(signed("/programs/update", "alice", with("programId", "p-alice")).is_ok());
    assert!(signed("/programs/delete", "alice", with("programId", "p-bob")).is_err());
    // Minting is the root's alone.
    let one = || object(vec![("amount", Json::Whole(1))]);
    assert!(signed("/creatures/mint", "1@global", one()).is_ok());
    assert!(signed("/creatures/mint", "alice", one()).is_err());
    // Custodial email login is shadowed until it is removed.
    assert!(signed("/creatures/login", "", object(vec![])).is_ok());
    assert!(signed("/nowhere", "alice", object(vec![])).is_err());
}
