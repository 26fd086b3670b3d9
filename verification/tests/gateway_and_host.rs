use aseman_node::creature::directory::{CreatureRecord, Creatures};
use aseman_node::guest_data::{
    answer_db_op, answer_pairs, answer_state, db_op_with, refuse_guest, split_runtime_key, state_with,
    GuestOperation, GuestOutcome, Namespace,
};
use aseman_node::host::{
    answer_lock, check_bool, check_i64, check_str, copy_to_vm, dispatch_signal, guest_call,
    call, guest_texts, guest_value, guest_values, log_follower, refused_callback, resolve_vm_ownership, terminate_vm,
    vm_callback, vm_log_event, CallbackRoute, KvOp, PrefixRead, SignalStep,
    StateRead, VmmHostBridge,
};
use aseman_node::json::Json;
use aseman_node::program::gateway::{
    forward_url, normalize_gateway_path, register_gateway_route, GatewayRoute, GatewayRoutes,
};
use aseman_node::program::target::{apply_program_target, normalize_create_input, TargetOwners};
use aseman_node::startup::{parse_owner_key, refuse_start};
use aseman_node::store::membership::{join, Stores};
use aseman_node::store::permissions::StorePermissions;
use aseman_node::table::Table;
use aseman_node::workloads::{
    answer_http, artifact, certificates, check_plan, content_digest, entity_runtime,
    forward_as_signal, forward_http, forward_id, guest_api_key, hand_over, handoff_command, key_found, invocation_id, invoke, launch, normalize_runtime,
    runtime_source, settle_forward, signal_entity, workload_name, workload_resources, Forwarded,
    HandoffCommand, HandoffEvent, HandoffInstance, HandoffStep, InvocationKind, LaunchResources, NodeWorkloads,
};

fn s(value: &str) -> String {
    value.to_string()
}

fn text(value: &str) -> Json {
    Json::Text(s(value))
}

fn object(fields: Vec<(&str, Json)>) -> Json {
    Json::Object(fields.into_iter().map(|(k, v)| (k.to_string(), v)).collect())
}

#[test]
fn runtime_keys_name_their_creature() {
    assert_eq!(split_runtime_key("8@global::profile"), Some(("8@global", "profile")));
    assert_eq!(split_runtime_key("ModalProvisioning::vm-1"), None);
    assert_eq!(split_runtime_key("plain"), None);
}

fn normalized(caller: &str, input: Json) -> Json {
    normalize_create_input(caller, &input)
}

#[test]
fn the_callers_stamped_program_id_is_not_the_program_to_create() {
    let input = normalized(
        "10@global",
        object(vec![("programId", text("10@global")), ("appId", text("3@global"))]),
    );
    assert!(input.field("programId").is_none());
}

#[test]
fn an_explicit_new_program_id_is_kept() {
    let input = normalized("10@global", object(vec![("programId", text("99@global"))]));
    assert_eq!(input.text("programId"), Some("99@global"));
}

#[test]
fn app_id_wins_over_a_defaulted_machine_id() {
    let input = normalized(
        "10@global",
        object(vec![("machineId", text("10@global")), ("appId", text("3@global"))]),
    );
    assert_eq!(input.text("machineId"), Some("3@global"));
    let input = normalized("10@global", object(vec![("appId", text("3@global"))]));
    assert_eq!(input.text("machineId"), Some("3@global"));
}

#[test]
fn an_explicit_machine_id_wins_over_app_id() {
    let input = normalized(
        "10@global",
        object(vec![("machineId", text("4@global")), ("appId", text("3@global"))]),
    );
    assert_eq!(input.text("machineId"), Some("4@global"));
}

#[test]
fn program_calls_reach_the_program_they_name() {
    let owners = |caller: &str, target: &str, machine: &str| TargetOwners {
        caller: s(caller),
        target: s(target),
        machine: s(machine),
    };
    let named = || object(vec![("programId", text("10@global")), ("targetProgramId", text(" 9@global "))]);
    let out = apply_program_target("deployEntity", "10@global", &named(), &owners("u", "u", ""));
    match out {
        Ok(input) => {
            assert_eq!(input.text("programId"), Some("9@global"));
            assert!(input.field("targetProgramId").is_none());
        }
        Err(_) => panic!("the owner may deploy"),
    }
    match apply_program_target("deleteProgram", "10@global", &named(), &owners("u", "v", "")) {
        Err(e) => assert_eq!(e.text("error"), Some("you are not the owner of this program")),
        Ok(_) => panic!("a stranger may not delete"),
    }
    assert!(apply_program_target("getProgram", "10@global", &named(), &owners("u", "v", "")).is_ok());
    let other = apply_program_target("dbOp", "10@global", &named(), &owners("u", "v", ""));
    match other {
        Ok(input) => assert_eq!(input.text("programId"), Some("10@global")),
        Err(_) => panic!("other calls keep their caller"),
    }
    let create = object(vec![("machineId", text("4@global"))]);
    match apply_program_target("createProgram", "10@global", &create, &owners("u", "", "v")) {
        Err(e) => assert_eq!(e.text("error"), Some("you are not the owner of this machine")),
        Ok(_) => panic!("a stranger's machine"),
    }
    assert!(apply_program_target("x", "10@global", &Json::Null, &owners("", "", "")).is_ok());
}

#[test]
fn legacy_gateway_routes_pass_the_conformance_suite() {
    let mut routes = GatewayRoutes::new();
    // A pin is kept.
    let pinned = GatewayRoute {
        creature_id: "1@global".into(),
        path: "pinned".into(),
        program_id: "10@global".into(),
        entity_id: "main".into(),
        runtime: "wasm".into(),
        pinned_vm_id: "vm-7".into(),
    };
    routes.put_route(&pinned);
    let found = routes.route("1@global", "pinned").unwrap();
    assert_eq!(found.creature_id, pinned.creature_id);
    assert_eq!(found.path, pinned.path);
    assert_eq!(found.program_id, pinned.program_id);
    assert_eq!(found.entity_id, pinned.entity_id);
    assert_eq!(found.runtime, pinned.runtime);
    assert_eq!(found.pinned_vm_id, pinned.pinned_vm_id);
}

fn route(path: &str) -> GatewayRoute {
    GatewayRoute {
        creature_id: s("1@global"),
        path: s(path),
        program_id: s("10@global"),
        entity_id: s("main"),
        runtime: s("docker"),
        pinned_vm_id: s(""),
    }
}

#[test]
fn registering_a_path_drops_the_earlier_one() {
    let mut routes = GatewayRoutes::new();
    register_gateway_route(&mut routes, &route("api"), "alice");
    assert_eq!(routes.route_of_entity("10@global", "main"), Some((s("1@global"), s("api"))));
    assert_eq!(routes.alias("alice"), Some(s("1@global")));
    register_gateway_route(&mut routes, &route("v2"), "alice");
    assert!(routes.route("1@global", "api").is_none());
    assert!(routes.route("1@global", "v2").is_some());
    routes.delete_route("1@global", "v2");
    assert!(routes.route("1@global", "v2").is_none());
}

#[test]
fn gateway_paths_are_absolute() {
    assert_eq!(normalize_gateway_path("  "), "/");
    assert_eq!(normalize_gateway_path("/a"), "/a");
    assert_eq!(normalize_gateway_path("a"), "/a");
    assert_eq!(forward_url("10.0.0.2", Some(80), "x"), Ok(s("http://10.0.0.2:80/x")));
    assert_eq!(
        forward_url("10.0.0.2", None, "x"),
        Err(s("missing VM HTTP port in gateway endpoint"))
    );
}

fn workloads() -> NodeWorkloads {
    let mut creatures = Creatures::new();
    creatures
        .create(&CreatureRecord {
            id: s("1@global"),
            creature_type: s("human"),
            username: s("alice@global"),
            public_key: s("pem"),
            chain_id: s(""),
            subchain_id: s(""),
            owner_id: s(""),
        })
        .unwrap();
    let mut routes = GatewayRoutes::new();
    register_gateway_route(&mut routes, &route("api"), "alice");
    let deeper = GatewayRoute { entity_id: s("deep"), ..route("api/v1") };
    register_gateway_route(&mut routes, &deeper, "alice");
    let mut stores =
        Stores { records: Table::new(), metadata: Table::new(), links: Table::new() };
    join(&mut stores.links, "s1", "10@global", StorePermissions::member());
    NodeWorkloads::new(creatures, routes, stores)
}

#[test]
fn the_longest_registered_path_answers() {
    let node = workloads();
    for name in ["alice@global", "alice", "1@global", " alice "] {
        let found = node.resolve_http_route(name, "/api/v1/users//7", 8).unwrap();
        assert_eq!((found.entity_id.as_str(), found.path.as_str()), ("deep", "/users/7"));
        assert_eq!(found.creature_id, "1@global");
    }
    let found = node.resolve_http_route("alice", "/api/users", 8).unwrap();
    assert_eq!((found.entity_id.as_str(), found.path.as_str()), ("main", "/users"));
    assert_eq!(found.to_json().text("programId"), Some("10@global"));
    // Only the leading segments are tried.
    let found = node.resolve_http_route("alice", "/api/v1/x", 1).unwrap();
    assert_eq!((found.entity_id.as_str(), found.path.as_str()), ("main", "/v1/x"));
    assert!(node.resolve_http_route("alice", "/nothing", 8).is_none());
    assert!(node.resolve_http_route("alice", "/", 8).is_none());
    assert!(node.resolve_http_route("  ", "/api", 8).is_none());
    assert!(node.run_vm_entity("10@global", "s1"));
    assert!(!node.run_vm_entity("11@global", "s1"));
}

#[test]
fn runtimes_are_named_by_entity_or_program() {
    assert_eq!(runtime_source("docker", "main", Some(" Wasm ")), "Wasm");
    assert_eq!(runtime_source(" docker", "", Some("wasm")), "docker");
    assert_eq!(runtime_source("docker", "main", None), "docker");
    assert_eq!(entity_runtime("docker", "main", Some(" Wasm ")), "wasm");
    assert_eq!(normalize_runtime(" DOCKER "), "docker");
    assert_eq!(signal_entity(""), "main");
    assert_eq!(signal_entity("x"), "x");
}

#[test]
fn requests_are_forwarded_to_workloads() {
    let request = object(vec![
        ("programId", text(" 10@global ")),
        ("method", text("post")),
        ("query", text("a=1")),
        ("bodyBase64", text("+/8=")),
        ("headers", object(vec![("x", text("1")), ("y", Json::Whole(2))])),
    ]);
    match forward_http(&request) {
        Some(Ok(call)) => {
            assert_eq!(call.program_id, "10@global");
            assert_eq!(call.entity_id, "main");
            assert_eq!(call.vm_id, "signal");
            assert_eq!(call.method, "POST");
            assert_eq!(call.path, "/");
            assert_eq!(call.query, Some(s("a=1")));
            assert_eq!(call.body, "-_8");
            assert_eq!(call.headers.text("x"), Some("1"));
            assert!(call.headers.field("y").is_none());
        }
        _ => panic!("the request is forwarded"),
    }
    match forward_http(&object(vec![("bodyBase64", text("%"))])) {
        Some(Err(e)) => assert_eq!(e, "the request body is not base64"),
        _ => panic!("the body is faulty"),
    }
    match answer_http(201, &object(vec![]), "-_8") {
        Some(Ok(answer)) => {
            assert_eq!(answer.text("bodyBase64"), Some("+/8="));
            assert_eq!(answer.whole("status"), Some(201));
        }
        _ => panic!("the answer goes back"),
    }
    match answer_http(200, &object(vec![]), "+") {
        Some(Err(e)) => assert_eq!(e, "the VMM answered an invalid body"),
        _ => panic!("the body is faulty"),
    }
}

#[test]
fn failed_forwards_are_answered_or_signalled() {
    match settle_forward(None) {
        Forwarded::Answer(a) => {
            assert_eq!(a.whole("status"), Some(503));
            assert_eq!(a.text("error"), Some("this node has no VMM"));
        }
        Forwarded::AsSignal => panic!("there is nobody to signal"),
    }
    assert!(matches!(
        settle_forward(Some(Err(s("unsupported: the runtime has no ingress")))),
        Forwarded::AsSignal
    ));
    match settle_forward(Some(Err(s("down")))) {
        Forwarded::Answer(a) => assert_eq!(a.whole("status"), Some(502)),
        Forwarded::AsSignal => panic!("a failure is answered"),
    }
    let made = forward_as_signal(&object(vec![("programId", text(" 10@global ")), ("path", text("/x"))]));
    assert_eq!(made.program_id, "10@global");
    assert_eq!(made.signal.text("action"), Some("single"));
    assert_eq!(
        made.signal.text("data"),
        Some(
            "{\"bodyBase64\":\"\",\"creatureId\":\"\",\"entityId\":\"\",\"headers\":null,\
             \"kind\":\"httpRequest\",\"method\":\"GET\",\"path\":\"/x\",\
             \"programId\":\"10@global\",\"query\":\"\"}"
        )
    );
    assert_eq!(made.answer.whole("status"), Some(202));
    assert_eq!(
        made.answer.text("body"),
        Some("{\"entityId\":\"\",\"forwarded\":\"signal\",\"ok\":true,\"programId\":\"10@global\"}")
    );
}

#[test]
fn launches_carry_the_digest_of_their_file() {
    let resources = workload_resources(LaunchResources::default());
    assert_eq!(resources.vcpu_millis, 1000);
    assert_eq!(resources.memory_mib, 64);
    assert_eq!(resources.disk_mib, 1024);
    assert_eq!(resources.invocation_timeout_millis, 60_000);
    let none = workload_resources(LaunchResources {
        cpu_cores: -3,
        ram_mb: 0,
        disk_gb: -1,
        max_exec_time_seconds: 0,
    });
    assert_eq!((none.vcpu_millis, none.memory_mib, none.disk_mib), (1000, 1, 0));
    let bytes = b"abc".to_vec();
    let params = vec![(s("MODE"), s("fast"))];
    let nothing = vec![];
    let url = "https://node.example";
    let plan = launch(
        "p",
        "3@global",
        "main",
        "vm",
        "wasm",
        LaunchResources::default(),
        &params,
        url,
        Some("key"),
        Some(&bytes),
    );
    match plan {
        Ok(plan) => {
            assert_eq!(
                plan.digest,
                "sha256:ba7816bf8f01cfea414140de5dae2223b00361a396177a9cb410ff61f20015ad"
            );
            assert_eq!(plan.workload, "p\0main\0vm");
            assert_eq!(plan.name, "main/vm");
            assert_eq!(plan.machine_id, "3@global");
            assert_eq!(plan.environment, params);
            assert_eq!(plan.guest_api_url, url);
            assert_eq!(artifact(Some(bytes.clone()), &plan.digest), Some(bytes.clone()));
        }
        Err(e) => panic!("{e}"),
    }
    assert_eq!(artifact(Some(bytes.clone()), &content_digest(&b"abd".to_vec())), None);
    assert_eq!(artifact(None, "sha256:"), None);
    assert_eq!(workload_name("a", "b", "c"), "a\0b\0c");
    let undeployed = launch("p", "m", "e", "v", "wasm", LaunchResources::default(), &nothing, url, None, None);
    assert_eq!(undeployed.err(), Some(s("the entity has no deployed file")));
    let missing = launch("p", "m", "e", "v", "wasm", LaunchResources::default(), &nothing, url, Some("k"), None);
    assert_eq!(missing.err(), Some(s("the entity's file is missing")));
}

#[test]
fn signals_invoke_workloads() {
    let (first, invocation) = invoke(false, "", &object(vec![]), false);
    assert!(first);
    assert_eq!(invocation.kind, InvocationKind::Signal);
    assert_eq!(invocation.key, "creatures/signal");
    assert_eq!(invocation.store_id, None);
    let (again, invocation) = invoke(true, "s1", &object(vec![]), true);
    assert!(!again);
    assert_eq!(invocation.kind, InvocationKind::ChainTransactions);
    assert_eq!(invocation.store_id, Some(s("s1")));
}

#[test]
fn instances_are_handed_over_as_decided() {
    assert!(matches!(
        handoff_command(&vec![s("plan"), s("out")]),
        Ok(HandoffCommand::Plan { out }) if out == "out"
    ));
    assert!(matches!(
        handoff_command(&vec![s("apply"), s("p"), s("d")]),
        Ok(HandoffCommand::Apply { .. })
    ));
    assert_eq!(
        handoff_command(&vec![s("plan")]).err(),
        Some(s("usage: vmm-handoff plan OUT | vmm-handoff apply PLAN DECISIONS"))
    );
    assert_eq!(check_plan(&vec![1, 2], &vec![1, 2]), Ok(()));
    assert_eq!(
        check_plan(&vec![1, 2], &vec![1, 3]).err(),
        Some(s("the legacy VM handoff plan changed since it was approved; plan again"))
    );
    let one = |key: &str, runtime: &str, adopt: bool| HandoffInstance {
        key: s(key),
        runtime: s(runtime),
        adopt,
    };
    let mut list = vec![
        one("a", "wasm", true),
        one("b", "", false),
        one("c", "", true),
        one("d", "wasm", true),
    ];
    assert!(matches!(hand_over(&list, HandoffEvent::Checked), HandoffStep::Launch { index: 0 }));
    match hand_over(&list, HandoffEvent::Launched { index: 0 }) {
        HandoffStep::Refuse { reason } => {
            assert_eq!(reason, "c has no recorded runtime; decide stop instead");
        }
        _ => panic!("nobody knows how to run it"),
    }
    match hand_over(&list, HandoffEvent::Failed { reason: s("no VMM") }) {
        HandoffStep::Refuse { reason } => assert_eq!(reason, "no VMM"),
        _ => panic!("a launch failed"),
    }
    // Records go only once every adopted instance was launched.
    list[2].adopt = false;
    assert!(matches!(
        hand_over(&list, HandoffEvent::Launched { index: 0 }),
        HandoffStep::Launch { index: 3 }
    ));
    assert!(matches!(
        hand_over(&list, HandoffEvent::Launched { index: 3 }),
        HandoffStep::RemoveRecords
    ));
    assert!(matches!(hand_over(&vec![], HandoffEvent::Checked), HandoffStep::RemoveRecords));
}

#[test]
fn guest_data_calls_name_their_operation() {
    let put = object(vec![("key", text("counter")), ("path", text("doc")), ("data", Json::Whole(1))]);
    assert!(matches!(
        state_with("putJson", &put, 100),
        Ok(GuestOperation::PutJson { merge: true, data, .. }) if data == "1"
    ));
    assert_eq!(state_with("getJson", &object(vec![]), 100).err(), Some(s("key is required")));
    assert!(matches!(
        state_with("getByPrefix", &object(vec![]), 100),
        Ok(GuestOperation::ListJson { limit: 100, .. })
    ));
    assert!(matches!(
        state_with("getLink", &put, 100),
        Ok(GuestOperation::Get { namespace: Namespace::DbOp, .. })
    ));
    assert!(matches!(state_with("delKey", &put, 100), Ok(GuestOperation::DeleteJson { .. })));
    assert_eq!(
        state_with("fly", &put, 100).err(),
        Some(s("unsupported guest state op: fly"))
    );
    assert!(matches!(
        db_op_with(Namespace::AppletDb, "getByPrefix", "", "", "p1::", 100),
        Ok(GuestOperation::List { namespace: Namespace::AppletDb, .. })
    ));
    assert!(db_op_with(Namespace::DbOp, "put", "k", "v", "", 100).is_ok());
    assert!(db_op_with(Namespace::DbOp, "get", "k", "", "", 100).is_ok());
    assert!(db_op_with(Namespace::DbOp, "del", "k", "", "", 100).is_ok());
    assert_eq!(
        db_op_with(Namespace::DbOp, "fly", "k", "", "", 100).err(),
        Some(s("unsupported dbOp: fly"))
    );
}

/// A creature's database: documents by key and path, and pairs by namespace and key.
#[derive(Default)]
struct Database {
    documents: Vec<(String, String, String)>,
    pairs: Vec<(Namespace, String, String)>,
}

impl Database {
    fn execute(&mut self, operation: GuestOperation) -> GuestOutcome {
        match operation {
            GuestOperation::PutJson { key, path, data, .. } => {
                self.documents.push((key, path, data));
                GuestOutcome::Done
            }
            GuestOperation::GetJson { key, path } => GuestOutcome::Document {
                data: self
                    .documents
                    .iter()
                    .find(|(k, p, _)| *k == key && *p == path)
                    .map(|(_, _, document)| document.clone())
                    .unwrap_or_default(),
            },
            GuestOperation::ListJson { .. } => {
                let mut keys = Vec::new();
                for (key, path, document) in &self.documents {
                    keys.push(format!("{key}::{path}"));
                    // The one document that is written here.
                    assert_eq!(document, "{\"n\":1}");
                    keys.push(format!("{key}::{path}.n"));
                }
                GuestOutcome::Keys { keys }
            }
            GuestOperation::DeleteJson { key, .. } => {
                self.documents.retain(|(k, _, _)| *k != key);
                GuestOutcome::Done
            }
            GuestOperation::Put { namespace, key, value } => {
                self.pairs.push((namespace, key, value));
                GuestOutcome::Done
            }
            GuestOperation::Get { namespace, key } => GuestOutcome::Value {
                value: self
                    .pairs
                    .iter()
                    .find(|(n, k, _)| *n == namespace && *k == key)
                    .map(|(_, _, value)| value.clone()),
            },
            GuestOperation::Delete { namespace, key } => {
                self.pairs.retain(|(n, k, _)| *n != namespace || *k != key);
                GuestOutcome::Done
            }
            GuestOperation::List { namespace, prefix, .. } => GuestOutcome::Listed {
                values: self
                    .pairs
                    .iter()
                    .filter(|(n, k, _)| *n == namespace && k.starts_with(&prefix))
                    .map(|(_, _, value)| value.clone())
                    .collect(),
            },
        }
    }
}

#[test]
fn live_guest_data_routes_to_the_creatures_database() {
    let mut database = Database::default();

    // Documents and links, in their response shapes.
    let mut state = |op: &str, input: Json| match state_with(op, &input, 100) {
        Ok(operation) => answer_state(&database.execute(operation)),
        Err(e) => panic!("{e}"),
    };
    let done = object(vec![("ok", Json::Bool(true))]);
    let counter = || {
        object(vec![
            ("key", text("counter")),
            ("path", text("doc")),
            ("data", object(vec![("n", Json::Whole(1))])),
        ])
    };
    assert!(state("putJson", counter()).equals(&done));
    assert!(state("getJson", counter()).equals(&object(vec![
        ("ok", Json::Bool(true)),
        ("data", object(vec![("n", Json::Whole(1))])),
    ])));
    let listed = |keys: Vec<Json>| {
        object(vec![("ok", Json::Bool(true)), ("data", Json::Array(keys))])
    };
    let all = || object(vec![("prefix", text(""))]);
    assert!(state("getByPrefix", all())
        .equals(&listed(vec![text("counter::doc"), text("counter::doc.n")])));
    state("delKey", object(vec![("key", text("counter"))]));
    assert!(state("getByPrefix", all()).equals(&listed(vec![])));
    assert!(state_with("getJson", &object(vec![]), 100).is_err());

    // Pairs in both namespaces, and links over the creature's own pairs.
    let mut database = Database::default();
    let mut db = |namespace: Namespace, op: &str, key: &str, value: &str, prefix: &str| {
        match db_op_with(namespace, op, key, value, prefix, 100) {
            Ok(operation) => answer_db_op(&database.execute(operation)),
            Err(e) => panic!("{e}"),
        }
    };
    db(Namespace::DbOp, "put", "profile", "alice", "");
    db(Namespace::AppletDb, "put", "p1::counter", "3", "");
    assert_eq!(db(Namespace::DbOp, "get", "profile", "", ""), "{\"data\":\"alice\"}");
    assert_eq!(db(Namespace::AppletDb, "getByPrefix", "", "", "p1::"), "{\"data\":[\"3\"]}");
    let link = state_with("getLink", &object(vec![("key", text("profile"))]), 100);
    match link {
        Ok(operation) => assert!(answer_state(&database.execute(operation)).equals(&object(vec![
            ("ok", Json::Bool(true)),
            ("value", text("alice")),
        ]))),
        Err(e) => panic!("{e}"),
    }
    let mut db = |namespace: Namespace, op: &str, key: &str| {
        match db_op_with(namespace, op, key, "", "", 100) {
            Ok(operation) => answer_db_op(&database.execute(operation)),
            Err(e) => panic!("{e}"),
        }
    };
    db(Namespace::DbOp, "del", "profile");
    assert_eq!(db(Namespace::DbOp, "get", "profile"), "{\"data\":\"\"}");

    // A creature without an active binding is refused, never served from elsewhere.
    assert_eq!(
        refuse_guest("nobody@global", false),
        Err(s("the creature's guest database is not active"))
    );
}

#[test]
fn guest_data_is_answered_in_its_shapes() {
    let found = GuestOutcome::Value { value: Some(s("alice")) };
    assert_eq!(answer_db_op(&found), "{\"data\":\"alice\"}");
    assert_eq!(answer_pairs(&found).text("data"), Some("alice"));
    assert_eq!(answer_state(&found).text("value"), Some("alice"));
    let missing = GuestOutcome::Value { value: None };
    assert_eq!(answer_db_op(&missing), "{\"data\":\"\"}");
    let listed = GuestOutcome::Listed { values: vec![s("3")] };
    assert_eq!(answer_db_op(&listed), "{\"data\":[\"3\"]}");
    let keys = GuestOutcome::Keys { keys: vec![s("counter::doc"), s("counter::doc.n")] };
    assert_eq!(answer_state(&keys).items("data").unwrap().len(), 2);
    let document = GuestOutcome::Document { data: s("{\"n\":1}") };
    assert_eq!(answer_state(&document).field("data").unwrap().whole("n"), Some(1));
    let broken = GuestOutcome::Document { data: s("{\"n\":") };
    assert_eq!(answer_state(&broken).field("data").unwrap().fields().unwrap().len(), 0);
    assert!(answer_state(&GuestOutcome::Done).field("data").is_none());
    assert_eq!(refuse_guest("8@global", true), Ok(()));
    assert_eq!(
        refuse_guest(" ", true),
        Err(s("guest data needs an identified creature"))
    );
    assert_eq!(
        refuse_guest("nobody@global", false),
        Err(s("the creature's guest database is not active"))
    );
}

#[test]
fn runtimes_keep_their_state_on_the_node_or_with_the_creature() {
    let op = |op: &str, key: &str, val: &str| KvOp { op: s(op), key: s(key), val: s(val) };
    let ops = vec![op("put", "Marker::vm", "1"), op("put", "8@global::k", "v")];
    let mut host = VmmHostBridge { links: Table::new(), own_databases: true };
    let routed = host.guest_changes(&ops);
    assert_eq!(routed.len(), 1);
    assert_eq!((routed[0].creature.as_str(), routed[0].key.as_str()), ("8@global", "k"));
    host.state_apply_ops(&ops);
    assert!(matches!(host.state_get("Marker::vm"), StateRead::Local(v) if v == "1"));
    assert!(matches!(
        host.state_get("8@global::k"),
        StateRead::Guest { creature, key } if creature == "8@global" && key == "k"
    ));
    assert_eq!(host.links.len(), 1);
    host.state_apply_ops(&vec![op("del", "Marker::vm", "")]);
    assert!(matches!(host.state_get("Marker::vm"), StateRead::Local(v) if v.is_empty()));
    let mut shared = VmmHostBridge { links: Table::new(), own_databases: false };
    assert!(shared.guest_changes(&ops).is_empty());
    shared.state_apply_ops(&ops);
    assert_eq!(shared.links.len(), 2);
}

#[test]
fn callbacks_are_served_only_where_somebody_vouches() {
    let call = |key: &str| match vm_callback(&format!("{{\"key\":\"{key}\",\"requestId\":7}}")) {
        Ok(callback) => callback,
        Err(e) => panic!("{e}"),
    };
    assert_eq!(call("terminateVm").route, CallbackRoute::TerminateVm);
    assert_eq!(call("plantTrigger").route, CallbackRoute::PlantTrigger);
    assert_eq!(call("signal").route, CallbackRoute::Signal);
    for key in ["log", "vmLog", "buildLog", "output", "vmOutput"] {
        assert_eq!(call(key).route, CallbackRoute::Log);
    }
    let other = call("createCreature");
    assert_eq!(other.route, CallbackRoute::Refused);
    assert_eq!(other.request_id, 7);
    assert!(matches!(other.input, Json::Null));
    assert_eq!(
        refused_callback().text("error"),
        Some("this operation needs an identified caller")
    );
    assert_eq!(
        vm_callback("").err(),
        Some(s("{\"error\":\"EOF while parsing a value at line 1 column 0\"}"))
    );
}

#[test]
fn guests_call_with_documents() {
    match call("dbOp", "{\"key\":\"k\",\"vmId\":\"other\"}", "p1", "main", "vm-1") {
        Ok(packet) => {
            assert_eq!((packet.text("op"), packet.text("vmId")), (Some("dbOp"), Some("vm-1")));
            assert_eq!(packet.text("programId"), Some("p1"));
            assert_eq!(packet.field("input").unwrap().text("key"), Some("k"));
        }
        Err(e) => panic!("{e}"),
    }
    assert_eq!(call("dbOp", "{", "p1", "main", "vm-1").err(), Some(s("the input is not JSON")));
    match call("dbOp", "[2.5,-3,true,null]", "p1", "main", "vm-1") {
        Ok(packet) => {
            let items = packet.items("input").unwrap();
            assert!(matches!(&items[0], Json::Real { near: 2, text } if text == "2.5"));
            assert!(matches!(&items[1], Json::Whole(-3)));
            assert!(matches!(&items[2], Json::Bool(true)));
            assert!(matches!(&items[3], Json::Null));
        }
        Err(e) => panic!("{e}"),
    }
}

#[test]
fn fields_have_defaults() {
    let input = object(vec![
        ("t", text("x")),
        ("n", Json::Real { near: 2, text: s("2.5") }),
        ("yes", text("1")),
        ("no", Json::Bool(false)),
    ]);
    assert_eq!(check_str(&input, "t", "d"), "x");
    assert_eq!(check_str(&input, "n", "d"), "d");
    assert_eq!(check_i64(&input, "n", 9), 2);
    assert_eq!(check_i64(&input, "t", 9), 9);
    assert!(check_bool(&input, "yes", false));
    assert!(!check_bool(&input, "no", true));
    assert!(!check_bool(&input, "t", true));
    assert!(check_bool(&input, "missing", true));
}

#[test]
fn guests_are_stamped_with_who_they_are() {
    let input = object(vec![("programId", text("1@global"))]);
    let call = guest_call("dbOp", &input, "10@global", "main", "vm-1");
    assert_eq!(call.text("programId"), Some("10@global"));
    assert_eq!(call.text("vmId"), Some("vm-1"));
    assert_eq!(call.field("input").unwrap().text("programId"), Some("1@global"));
    assert_eq!(copy_to_vm(&input).text("type"), Some("copyToVm"));
    assert_eq!(terminate_vm(&input).text("type"), Some("terminateVm"));
    assert!(matches!(terminate_vm(&Json::Null), Json::Null));
    assert!(answer_lock(&Ok(())).field("error").is_none());
    assert_eq!(answer_lock(&Err(s("held"))).text("error"), Some("held"));
}

#[test]
fn log_lines_reach_the_owner_who_follows() {
    let event = vm_log_event(&object(vec![("data", text("hello")), ("vmId", text("vm-1"))])).unwrap();
    assert_eq!((event.text.as_str(), event.log_type.as_str()), ("hello", "runtime"));
    assert!(vm_log_event(&object(vec![("vmId", text("vm-1"))])).is_none());
    assert!(vm_log_event(&object(vec![("text", text("x"))])).is_none());

    let links = vec![s("VmInstance::10@global::main::vm-1")];
    let mut machines = Table::new();
    machines.put("10@global", s("3@global"));
    let mut creatures = Creatures::new();
    creatures
        .create(&CreatureRecord {
            id: s("3@global"),
            creature_type: s("machine"),
            username: s("m@global"),
            public_key: s("pem"),
            chain_id: s(""),
            subchain_id: s(""),
            owner_id: s("1@global"),
        })
        .unwrap();
    assert_eq!(
        resolve_vm_ownership(&links, &machines, &creatures, "vm-1"),
        (s("10@global"), s("1@global"))
    );
    assert_eq!(resolve_vm_ownership(&links, &machines, &creatures, "vm-2"), (s(""), s("")));
    assert_eq!(resolve_vm_ownership(&links, &machines, &creatures, ""), (s(""), s("")));
    let mut terminals = Table::new();
    assert_eq!(log_follower(&terminals, "10@global", "vm-1", "1@global"), None);
    terminals.put("VmTerminal::10@global::vm-1::1@global", s("true"));
    assert_eq!(log_follower(&terminals, "10@global", "vm-1", "1@global"), Some(s("1@global")));
    assert_eq!(log_follower(&terminals, "10@global", "vm-1", ""), None);
}

#[test]
fn scans_go_where_the_keys_are() {
    let mut links = Table::new();
    links.put("A::1", s("x"));
    links.put("B::1", s("y"));
    links.put("A::2", s("z"));
    let bridge = VmmHostBridge { links, own_databases: true };
    match bridge.state_get_by_prefix("A") {
        PrefixRead::Local(keys) => assert_eq!(keys, vec![s("A::1"), s("A::2")]),
        PrefixRead::Guest { .. } => panic!("the keys are on the node"),
    }
    match bridge.state_get_by_prefix("8@global::pro") {
        PrefixRead::Guest { creature, prefix } => {
            assert_eq!((creature.as_str(), prefix.as_str()), ("8@global", "pro"));
        }
        PrefixRead::Local(_) => panic!("the keys are the creature's"),
    }
    let answer = object(vec![(
        "data",
        Json::Array(vec![text("a"), Json::Whole(1), text("b")]),
    )]);
    assert_eq!(guest_texts(Some(&answer)), vec![s("a"), s("b")]);
    assert!(guest_texts(None).is_empty());
    assert_eq!(guest_values(Some("{\"data\":[\"a\",1,\"b\"]}")), vec![s("a"), s("b")]);
    assert!(guest_values(Some("{")).is_empty());
    assert_eq!(guest_value(Some("{\"data\":\"v\"}")), "v");
    assert_eq!(guest_value(Some("{\"data\":1}")), "");
    assert_eq!(guest_value(None), "");
}

#[test]
fn proxies_are_asked_before_anything_runs() {
    let address = || Some((s("main"), s("s1")));
    let key = "creatures/signal";
    assert!(matches!(
        dispatch_signal("stores/signal", address(), false, false, true),
        SignalStep::Ignored
    ));
    assert!(matches!(dispatch_signal(key, address(), true, false, true), SignalStep::Proxied));
    assert!(matches!(dispatch_signal(key, address(), false, true, true), SignalStep::Proxied));
    assert!(matches!(dispatch_signal(key, address(), false, false, false), SignalStep::Dropped));
    match dispatch_signal(key, address(), false, false, true) {
        SignalStep::Deliver { entity, store } => {
            assert_eq!((entity.as_str(), store.as_str()), ("main", "s1"));
        }
        _ => panic!("the entity runs"),
    }
}

fn pem(label: &str) -> String {
    format!("-----BEGIN {label}-----\nAAEC\n-----END {label}-----\n")
}

#[test]
fn guests_are_served_with_what_the_files_hold() {
    let both = format!("{}{}", pem("CERTIFICATE"), pem(&format!("{} KEY", "PRIVATE"))).into_bytes();
    assert_eq!(certificates(&both), Ok(vec![vec![0, 1, 2]]));
    assert_eq!(guest_api_key(&both), Ok(vec![0, 1, 2]));
    let one = pem("CERTIFICATE").into_bytes();
    assert_eq!(
        guest_api_key(&one),
        Err(s("the guest API key secret holds no private key"))
    );
    assert_eq!(certificates(&b"nothing".to_vec()), Ok(vec![]));
    assert!(certificates(&b"-----BEGIN CERTIFICATE-----\n%\n".to_vec()).is_err());
    assert_eq!(key_found(Err(s("broken"))), Err(s("broken")));
}

#[test]
fn nodes_start_with_the_key_of_their_owner() {
    assert!(parse_owner_key("").is_none());
    assert!(parse_owner_key("not a key").is_none());
    assert_eq!(
        refuse_start(&None),
        Some(s("ASEMAN_NODE_PRIVATE_KEY_SECRET missing or unparseable"))
    );
    let number = |n: u64| rsa::BigUint::from(n);
    let key = rsa::RsaPrivateKey::from_p_q(
        number(4_294_967_291),
        number(4_294_967_279),
        number(65_537),
    )
    .unwrap();
    let text = rsa::pkcs8::EncodePrivateKey::to_pkcs8_pem(&key, rsa::pkcs8::LineEnding::LF).unwrap();
    let read = parse_owner_key(&text);
    assert_eq!(read, Some(key));
    assert_eq!(refuse_start(&read), None);
}

#[test]
fn requests_get_names_of_their_own() {
    let (one, two) = (invocation_id(), invocation_id());
    assert!(one.starts_with("invoke-") && one.len() == 39);
    assert_ne!(one, two);
    let forwarded = forward_id();
    assert!(forwarded.starts_with("http-") && forwarded.len() == 37);
}
