use aseman_node::actions::{self, Actor};
use aseman_node::creature::directory::{CreatureRecord, Creatures};
use aseman_node::json::Json;
use aseman_node::packets::program::{
    DeployInput, DownloadEntityInput, ReadVmLogsInput, RunProgramEntityInput, VmResourcesInput,
    VmTerminalInput,
};
use aseman_node::program::billing::{
    billing_signing_text, charge_packet, charge_payload, charge_running_standalone_vms,
    charge_running_standalone_vms_if_needed,
    normalize_vm_resources, settle_charge, validate_and_build_vm_billing, vm_is_free,
    vm_per_minute_cost, BilledVm, ChargeTarget, VmRates, VmRecords,
};
use aseman_node::program::deploy::{
    deploy, normalize_entity_type, requested_path, DeployConventions, Deployment, ProgramRecord, VmmOffer,
};
use aseman_node::program::catalog::{ProgramFault, Programs};
use aseman_node::program::gateway::{answer_forwarded, GatewayRoutes, InstanceAnswer};
use aseman_node::program::instances::{
    deletable_vm, delete_program_entity, launch_program_entity, requested_program, run_program_entity, set_vm_terminal,
    stop_program_entity, Destruction, Node, Payment,
};
use aseman_node::program::machines::{
    gather_machines, linked_machine_ids, resolve_program_owner_machine, MachineRecord, ProgramMachines,
};
use aseman_node::program::queries::{
    bootstrap_program, download_entity, instance_of_vm, list_entity_vms, list_machine,
    list_program_machines, read_vm_logs, refuse_listing, select_log_lines, wait_for_alarm,
    ListedMachine, ListedProgram, LogLine, VmProbe,
};
use aseman_node::table::Table;

fn s(value: &str) -> String {
    value.to_string()
}

fn text(value: &str) -> Json {
    Json::Text(s(value))
}

fn object(fields: Vec<(&str, Json)>) -> Json {
    Json::Object(fields.into_iter().map(|(k, v)| (k.to_string(), v)).collect())
}

fn refused<T>(r: Result<T, String>) -> String {
    match r {
        Ok(_) => panic!("expected a refusal"),
        Err(e) => e,
    }
}

fn program() -> ProgramRecord {
    ProgramRecord {
        id: s("10@global"),
        machine_id: s("3@global"),
        runtime: s("docker"),
        path: s("/p"),
        comment: s("c"),
    }
}

fn record(id: &str, owner: &str) -> MachineRecord {
    MachineRecord { id: s(id), owner_id: s(owner), local_part: s("m-tool") }
}

fn machine() -> ProgramMachines {
    ProgramMachines { recorded: record("3@global", "1@global"), linked: vec![] }
}

fn resources() -> VmResourcesInput {
    VmResourcesInput { max_exec_time_seconds: 0, ram_mb: 128, disk_gb: 0, cpu_cores: 2 }
}

fn run_input(vm: &str) -> RunProgramEntityInput {
    RunProgramEntityInput {
        program_id: s("10@global"),
        machine_id: s("10@global"),
        entity_id: s("main"),
        vm_id: s(vm),
        resources: resources(),
        params: vec![(s("MODE"), s("fast"))],
        payment_lock_id: s("l1"),
        payment_signatures: vec![s("sig0"), s("sig1")],
        gateway_path: s(""),
    }
}

fn rates() -> VmRates {
    VmRates { ram_per_mb: 1, per_cpu_core: 10, disk_per_gb: 2 }
}

fn lock() -> Json {
    let step = |at: i64| object(vec![("amount", Json::Whole(150)), ("unlockAt", Json::Whole(at))]);
    object(vec![
        ("userId", text("1@global")),
        ("steps", Json::Array(vec![step(60_000), step(120_000)])),
    ])
}

#[test]
fn resources_have_defaults_and_a_price() {
    let granted = normalize_vm_resources(&resources());
    assert_eq!(
        (granted.max_exec_time_seconds, granted.ram_mb, granted.disk_gb, granted.cpu_cores),
        (60, 128, 1, 2)
    );
    assert_eq!(vm_per_minute_cost(&rates(), &granted), 150);
    let nothing = VmRates { ram_per_mb: 0, per_cpu_core: 0, disk_per_gb: 0 };
    assert!(vm_is_free(&nothing));
    assert_eq!(vm_per_minute_cost(&nothing, &granted), 1);
}

#[test]
fn payment_locks_cover_each_minute() {
    let granted = normalize_vm_resources(&resources());
    let build = |payment: Option<&Json>, owner: &str, lock_id: &str, signatures: Vec<String>, verified: Vec<bool>| {
        validate_and_build_vm_billing(
            payment,
            owner,
            "2@global",
            lock_id,
            &signatures,
            &verified,
            &rates(),
            &granted,
        )
    };
    let two = || vec![s("a"), s("b")];
    let good = vec![true, true];
    match build(Some(&lock()), "1@global", "l1", two(), good.clone()) {
        Ok(record) => {
            assert_eq!(record.whole("perMinuteCost"), Some(150));
            assert_eq!(record.whole("stepCount"), Some(2));
            assert_eq!(record.whole("lastChargeMinute"), Some(-1));
        }
        Err(e) => panic!("{e}"),
    }
    assert_eq!(
        refused(build(Some(&lock()), "1@global", "", two(), good.clone())),
        "paymentLockId is required for standalone vm execution"
    );
    assert_eq!(refused(build(None, "1@global", "l1", two(), good.clone())), "payment lock not found");
    assert_eq!(
        refused(build(Some(&lock()), "9@global", "l1", two(), good.clone())),
        "payment lock target is invalid"
    );
    assert_eq!(
        refused(build(Some(&lock()), "1@global", "l1", vec![s("a")], good.clone())),
        "paymentSignatures count must match lock steps count"
    );
    assert_eq!(
        refused(build(Some(&lock()), "1@global", "l1", two(), vec![true, false])),
        "payment signature verification failed"
    );
    let empty = object(vec![("userId", text("1@global"))]);
    assert_eq!(
        refused(build(Some(&empty), "1@global", "l1", two(), good)),
        "payment lock does not include steps"
    );
    assert_eq!(
        billing_signing_text(&lock(), "l1", 1, "1@global"),
        Some(s("l1:1:120000:150:1@global"))
    );
}

fn billed(step: i64, last: i64) -> BilledVm {
    BilledVm {
        link: s("VmBilling::vm-1"),
        status: s("running"),
        payment: Some(object(vec![
            ("payerUserId", text("2@global")),
            ("lockId", text("l1")),
            ("perMinuteCost", Json::Whole(150)),
            ("currentStep", Json::Whole(step)),
            ("lastChargeMinute", Json::Whole(last)),
            ("machineId", text("10@global")),
            ("entityId", text("main")),
            ("signatures", Json::Array(vec![text("sig0"), text("sig1")])),
        ])),
    }
}

#[test]
fn instances_are_charged_once_a_minute() {
    let now: i64 = 600;
    match charge_running_standalone_vms_if_needed(&vec![billed(1, 9)], 9, now) {
        Some((minute, dues)) => {
            assert_eq!(minute, 10);
            assert_eq!(dues.len(), 1);
            let payload = charge_payload(&dues[0]).unwrap();
            assert_eq!(payload.text("signature"), Some("sig1"));
            assert_eq!(payload.whole("step"), Some(1));
            assert_eq!(
                charge_packet(&dues[0]).unwrap(),
                b"{\"amount\":150,\"lockId\":\"l1\",\"signature\":\"sig1\",\"step\":1,\
                  \"type\":\"pay\",\"userId\":\"2@global\"}"
            );
            let mut records = VmRecords { links: Table::new(), billing: Table::new() };
            records.billing.put("Json::VmBilling::vm-1", billed(1, 9).payment.unwrap());
            assert!(!settle_charge(&mut records, &dues[0], true, minute));
            let after = records.billing.get("Json::VmBilling::vm-1").unwrap();
            assert_eq!(after.whole("currentStep"), Some(2));
            assert_eq!(after.whole("lastChargeMinute"), Some(10));
        }
        None => panic!("a minute has passed"),
    }
    assert!(charge_running_standalone_vms_if_needed(&vec![billed(1, 9)], 10, now).is_none());
    match charge_running_standalone_vms_if_needed(&vec![billed(2, 9)], 9, now) {
        Some((_, dues)) => {
            assert!(matches!(dues[0], ChargeTarget::Stop { .. }));
            assert!(charge_payload(&dues[0]).is_none());
            assert!(charge_packet(&dues[0]).is_none());
            let mut records = VmRecords { links: Table::new(), billing: Table::new() };
            records.links.put("VmStatus::vm-1", s("running"));
            records.links.put("VmInstance::10@global::main::vm-1", s("true"));
            records.links.put("VmBilling::vm-1", s("true"));
            records.billing.put("Json::VmBilling::vm-1", Json::Null);
            assert!(settle_charge(&mut records, &dues[0], false, 10));
            assert_eq!((records.links.len(), records.billing.len()), (0, 0));
        }
        None => panic!("a minute has passed"),
    }
    let idle = BilledVm { status: s("stopped"), ..billed(1, 9) };
    match charge_running_standalone_vms_if_needed(&vec![idle], 9, now) {
        Some((_, dues)) => assert!(dues.is_empty()),
        None => panic!("a minute has passed"),
    }
}

fn node() -> Node {
    Node {
        vms: VmRecords { links: Table::new(), billing: Table::new() },
        gateway: GatewayRoutes::new(),
    }
}

fn payment() -> Payment {
    Payment {
        lock: Some(lock()),
        node_owner: s("1@global"),
        rates: rates(),
        verified: vec![true, true],
    }
}

#[test]
fn an_instance_runs_stops_and_is_deleted() {
    let mut n = node();
    let launched = run_program_entity(
        &mut n,
        &run_input(""),
        Some(&program()),
        Some(" Docker "),
        &machine(),
        "1@global",
        "vm-1",
        1_800_000_000_000,
        "",
        &payment(),
        Some(true),
    );
    match launched {
        Ok(launch) => {
            assert_eq!(launch.vm_id, "vm-1");
            assert_eq!(launch.entity_type, "docker");
            assert_eq!(launch.machine_id, "3@global");
            assert_eq!(launch.params, vec![(s("MODE"), s("fast"))]);
        }
        Err(e) => panic!("{e}"),
    }
    assert!(n.vms.links.has("VmInstance::10@global::main::vm-1"));
    assert!(n.vms.links.has("VmBilling::vm-1"));
    assert!(n.vms.billing.has("Json::VmBilling::vm-1"));

    let vm = deletable_vm(
        &n.vms,
        &run_input(" vm-1 "),
        Some(&program()),
        true,
        &machine(),
        "1@global",
    );
    assert_eq!(vm, Ok(s("vm-1")));
    let deleted = delete_program_entity(
        &mut n.vms,
        &run_input("vm-1"),
        Some(&program()),
        true,
        &machine(),
        "1@global",
        &Destruction::Done,
    );
    assert_eq!(deleted, Ok(s("vm-1")));
    let again = delete_program_entity(
        &mut n.vms,
        &run_input("vm-1"),
        Some(&program()),
        true,
        &machine(),
        "1@global",
        &Destruction::Done,
    );
    assert_eq!(refused(again), "vm does not belong to this entity");
    assert!(!n.vms.links.has("VmInstance::10@global::main::vm-1"));
}

#[test]
fn only_the_owner_handles_instances() {
    let mut n = node();
    let mut run = |program: Option<&ProgramRecord>, kind: Option<&str>, caller: &str, offers: Option<bool>| {
        refused(run_program_entity(
            &mut n,
            &run_input(""),
            program,
            kind,
            &machine(),
            caller,
            "vm-1",
            1,
            "",
            &payment(),
            offers,
        ))
    };
    let p = program();
    assert_eq!(run(None, Some("docker"), "1@global", Some(true)), "program does not exist");
    assert_eq!(run(Some(&p), None, "1@global", Some(true)), "entity does not exist");
    assert_eq!(
        run(Some(&p), Some("docker"), "2@global", Some(true)),
        "you are not owner of this program"
    );
    assert_eq!(
        run(Some(&p), Some("docker"), "1@global", None),
        "this node has no VMM (ASEMAN_VMM_ENDPOINT)"
    );
    assert_eq!(run(Some(&p), Some("docker"), "1@global", Some(false)), "invalid entity type");
    assert_eq!(n.vms.links.len(), 0);
    let mut records = VmRecords { links: Table::new(), billing: Table::new() };
    let stop = |records: &mut VmRecords, caller: &str, has_vmm: bool| {
        stop_program_entity(
            records,
            &run_input("vm-1"),
            Some(&program()),
            true,
            &machine(),
            caller,
            has_vmm,
        )
    };
    assert_eq!(
        refused(stop(&mut records, "2@global", true)),
        "you are not owner of this program"
    );
    assert_eq!(
        refused(stop(&mut records, "1@global", false)),
        "this node has no VMM (ASEMAN_VMM_ENDPOINT)"
    );
    assert_eq!(stop(&mut records, "1@global", true), Ok(()));
    let none = deletable_vm(
        &records,
        &run_input("  "),
        Some(&program()),
        true,
        &machine(),
        "1@global",
    );
    assert_eq!(refused(none), "vmId is required");
    assert_eq!(requested_program("", "m"), "m");
    assert_eq!(requested_program("p", "m"), "p");
}

#[test]
fn terminals_open_for_owners() {
    let mut links = Table::new();
    let input = VmTerminalInput { creature_id: s("10@global"), vm_id: s("vm-1") };
    assert_eq!(
        refused(set_vm_terminal(&mut links, &input, false, &machine(), "1@global", true)),
        "program does not exist"
    );
    assert_eq!(
        refused(set_vm_terminal(&mut links, &input, true, &machine(), "2@global", true)),
        "you are not owner of this creature"
    );
    assert_eq!(set_vm_terminal(&mut links, &input, true, &machine(), "1@global", true), Ok(()));
    assert!(links.has("VmTerminal::10@global::vm-1::1@global"));
    assert_eq!(set_vm_terminal(&mut links, &input, true, &machine(), "1@global", false), Ok(()));
    assert_eq!(links.len(), 0);
}

fn deploy_input(payload: &str) -> DeployInput {
    DeployInput {
        machine_id: s("10@global"),
        entity_id: s("main"),
        entity_type: s(" Docker "),
        downloadable: false,
        payload: s(payload),
        metadata: object(vec![("files", object(vec![("a.txt", text("AAEC"))]))]),
        distribution: s(""),
        distributed: false,
    }
}

fn offer() -> VmmOffer {
    VmmOffer {
        runtime_keys: vec![s("docker"), s("wasm")],
        conventions: Some(DeployConventions {
            entity_file_name: s("Dockerfile"),
            accepts_extra_files: true,
            build_on_deploy: true,
        }),
    }
}

#[test]
fn a_damaged_program_belongs_to_its_one_linked_machine() {
    let owner = |recorded: &MachineRecord, linked: Vec<MachineRecord>| {
        let machine = resolve_program_owner_machine(recorded, &linked);
        (machine.id, machine.owner_id)
    };
    let damaged = record("", "");
    let own = record("3@global", "1@global");
    let other = || record("4@global", "2@global");
    assert_eq!(owner(&own, vec![other()]), (s("3@global"), s("1@global")));
    assert_eq!(owner(&damaged, vec![other()]), (s("4@global"), s("2@global")));
    assert_eq!(owner(&damaged, vec![]), (s(""), s("")));
    assert_eq!(owner(&damaged, vec![other(), record("5@global", "2@global")]), (s(""), s("")));
    assert_eq!(owner(&damaged, vec![record("4@global", "")]), (s(""), s("")));

    let mut links = Table::new();
    links.put("machinePrograms::4@global::10@global", s("true"));
    links.put("machinePrograms::4@global::11@global", s("true"));
    links.put("VmStatus::10@global", s("running"));
    assert_eq!(linked_machine_ids(&links, "10@global"), vec![s("4@global")]);
    assert!(linked_machine_ids(&links, "12@global").is_empty());

    let mut creatures = Creatures::new();
    let machine = CreatureRecord {
        id: s("4@global"),
        creature_type: s("machine"),
        username: s("m@global"),
        public_key: s(""),
        chain_id: s(""),
        subchain_id: s(""),
        owner_id: s("2@global"),
    };
    assert_eq!(creatures.create(&machine), Ok(()));
    let gathered = gather_machines(&creatures, &links, "10@global", "");
    assert_eq!(
        owner(&gathered.recorded, gathered.linked),
        (s("4@global"), s("2@global"))
    );
    // The owner of the linked machine is the one who deploys.
    let linked = ProgramMachines { recorded: damaged, linked: vec![other()] };
    let none: Result<Json, String> = Err(s("no target"));
    let mut routes = GatewayRoutes::new();
    let mut go = |caller: &str| {
        deploy(
            &mut links, &mut routes, &deploy_input("Zm9v"), Some(&program()), &linked, caller,
            "proxy", &none, Some(&offer()), false, "",
        )
    };
    assert_eq!(refused(go("1@global")), "access to vm denied");
    assert!(go("2@global").is_ok());
}

#[test]
fn entities_are_deployed_with_their_files() {
    let mut links = Table::new();
    let mut routes = GatewayRoutes::new();
    let none: Result<Json, String> = Err(s("no target"));
    let mut go = |input: &DeployInput, p: Option<&ProgramRecord>, caller: &str, vmm: Option<&VmmOffer>, cluster: bool| {
        deploy(
            &mut links, &mut routes, input, p, &machine(), caller, "proxy", &none, vmm, cluster,
            "",
        )
    };
    let p = program();
    match go(&deploy_input("Zm9v"), Some(&p), "1@global", Some(&offer()), true) {
        Ok(Deployment::Entity { record, files, runtime_file, downloadable, artifact }) => {
            assert_eq!((record.program_id.as_str(), record.entity_id.as_str()), ("10@global", "main"));
            assert_eq!((record.entity_type.as_str(), record.image_name.as_str()), ("docker", "main"));
            assert_eq!(files.len(), 2);
            assert_eq!((files[0].name.as_str(), files[0].bytes.as_slice()), ("Dockerfile", &b"foo"[..]));
            assert_eq!(files[1].bytes, vec![0, 1, 2]);
            assert!(runtime_file && !downloadable);
            assert!(artifact.is_none());
        }
        Ok(_) => panic!("no proxy was deployed"),
        Err(e) => panic!("{e}"),
    }
    let spread = DeployInput { distribution: s("cluster"), ..deploy_input("Zm9v") };
    assert!(spread.wants_distribution());
    match go(&spread, Some(&p), "1@global", Some(&offer()), true) {
        Ok(Deployment::Entity { artifact: Some(sent), .. }) => {
            assert_eq!((sent.machine_id.as_str(), sent.runtime.as_str()), ("3@global", "docker"));
            assert_eq!((sent.path.as_str(), sent.comment.as_str()), ("/p", "c"));
            assert_eq!(sent.primary_file_name, "Dockerfile");
            assert_eq!(sent.files, vec![(s("Dockerfile"), s("Zm9v")), (s("a.txt"), s("AAEC"))]);
            assert!(sent.set_entity_links && sent.build_on_deploy);
        }
        _ => panic!("the cluster is sent nothing"),
    }
    assert!(matches!(
        go(&spread, Some(&p), "1@global", Some(&offer()), false),
        Ok(Deployment::Entity { artifact: None, .. })
    ));
    assert_eq!(refused(go(&deploy_input("Zm9v"), None, "1@global", Some(&offer()), false)), "program not found");
    assert_eq!(refused(go(&deploy_input("Zm9v"), Some(&p), "2@global", Some(&offer()), false)), "access to vm denied");
    assert_eq!(
        refused(go(&deploy_input("Zm9v"), Some(&p), "1@global", None, false)),
        "this node has no VMM (ASEMAN_VMM_ENDPOINT)"
    );
    assert!(go(&deploy_input("%"), Some(&p), "1@global", Some(&offer()), false).is_err());
    let odd = DeployInput { metadata: object(vec![("files", text("x"))]), ..deploy_input("Zm9v") };
    assert_eq!(refused(go(&odd, Some(&p), "1@global", Some(&offer()), false)), "files is not map");
    let proxy = DeployInput { entity_type: s("proxy"), ..deploy_input("Zm9v") };
    assert_eq!(refused(go(&proxy, Some(&p), "1@global", Some(&offer()), false)), "no target");
    assert_eq!(normalize_entity_type(" Wasm "), "wasm");
}

#[test]
fn a_deployed_path_leads_to_its_entity() {
    let mut links = Table::new();
    let mut routes = GatewayRoutes::new();
    let none: Result<Json, String> = Err(s("no target"));
    let p = program();
    let pinned = DeployInput {
        metadata: object(vec![("gatewayVmId", text(" vm-7 "))]),
        ..deploy_input("Zm9v")
    };
    let mut go = |input: &DeployInput, caller: &str, path: &str| {
        deploy(
            &mut links, &mut routes, input, Some(&p), &machine(), caller, "proxy", &none,
            Some(&offer()), false, path,
        )
        .map(|_| (
            routes.route("3@global", "api").map(|r| (r.entity_id, r.runtime, r.pinned_vm_id)),
            routes.route("3@global", "v2").is_some(),
            routes.alias("m-tool"),
        ))
    };
    assert_eq!(requested_path(&pinned), "");
    let pathed = DeployInput {
        metadata: object(vec![("gatewayPath", text("/api/"))]),
        ..deploy_input("Zm9v")
    };
    assert_eq!(requested_path(&pathed), "/api/");
    let bound = Some((s("main"), s("docker"), s("vm-7")));
    assert_eq!(go(&pinned, "1@global", "api"), Ok((bound, false, Some(s("3@global")))));
    // A refusal changes no route; another path takes the place of the first; none drops it.
    assert_eq!(refused(go(&pinned, "2@global", "v2")), "access to vm denied");
    assert_eq!(go(&pinned, "1@global", "v2"), Ok((None, true, Some(s("3@global")))));
    assert_eq!(go(&pinned, "1@global", ""), Ok((None, false, Some(s("3@global")))));
}

#[test]
fn instances_are_listed_newest_first() {
    let probe = |vm: &str, at: &str, answer: &str| VmProbe {
        link: format!("VmInstance::10@global::main::{vm}"),
        recorded_status: s("running"),
        started_at: s(at),
        answer: s(answer),
    };
    let list = list_entity_vms(
        "10@global",
        "main",
        &vec![
            probe("a", "100", "{\"status\":\"running\"}"),
            probe("b", "300", "gone"),
            probe("c", "200", "{\"ok\":false}"),
        ],
    );
    let ids: Vec<&str> = list.iter().map(|v| v.vm_id.as_str()).collect();
    assert_eq!(ids, ["b", "c", "a"]);
    assert!(list[2].running);
    assert_eq!(list[0].status, "unknown");
    assert_eq!(list[0].detail.text("error"), Some("expected value at line 1 column 1"));
    assert_eq!(list[1].detail.text("error"), Some("unknown"));
    assert_eq!(
        refuse_listing(true, &machine(), "2@global", true, true),
        Some(s("you are not owner of this program"))
    );
    assert_eq!(refuse_listing(true, &machine(), "1@global", true, true), None);
}

#[test]
fn logs_are_read_by_owners() {
    let links = vec![s("VmInstance::10@global::main::vm-1")];
    let found = instance_of_vm(&links, "vm-1");
    assert_eq!(found, Some((s("10@global"), s("main"))));
    let input =
        ReadVmLogsInput { vm_id: s("vm-1"), log_type: s("build"), offset: -5, count: 10 };
    match read_vm_logs(&input, &found, Some(&program()), &machine(), "1@global", true) {
        Ok(request) => {
            assert_eq!((request.after, request.build), (0, true));
            assert_eq!(request.entity_id, "main");
        }
        Err(e) => panic!("{e}"),
    }
    assert_eq!(
        refused(read_vm_logs(&input, &None, None, &machine(), "1@global", true)),
        "vm not found"
    );
    assert_eq!(
        refused(read_vm_logs(&input, &found, Some(&program()), &machine(), "2@global", true)),
        "you are not owner of this vm"
    );
    let line = |sequence: u64, build: bool| LogLine {
        sequence,
        at_millis: 0,
        build,
        line: s("x"),
    };
    let chosen = select_log_lines(vec![line(1, true), line(2, false), line(3, true)], true, 1);
    assert_eq!(chosen.len(), 1);
    assert!(chosen[0].build);
}

#[test]
fn entities_are_downloaded_when_they_may_be() {
    let input =
        DownloadEntityInput { machine_id: s("10@global"), program_id: s(""), entity_id: s("main") };
    let bytes = vec![0u8, 1, 2];
    match download_entity(&input, true, Some(&bytes)) {
        Ok((program, payload)) => {
            assert_eq!((program.as_str(), payload.as_str()), ("10@global", "AAEC"));
        }
        Err(e) => panic!("{e}"),
    }
    assert_eq!(refused(download_entity(&input, false, None)), "entity is not downloadable");
    assert_eq!(refused(download_entity(&input, true, None)), "entity file unavailable");
    let unnamed = DownloadEntityInput { machine_id: s(""), ..input };
    assert_eq!(
        refused(download_entity(&unnamed, true, None)),
        "programId and entityId are required"
    );
}

#[test]
fn machines_are_listed_with_their_profile() {
    let m = ListedMachine {
        id: s("3@global"),
        chain_id: s("main"),
        username: s("m@global"),
        owner_id: s("1@global"),
        programs_count: 2,
    };
    let bare = list_machine(&m, None);
    assert_eq!(bare.text("title"), Some("untitled"));
    assert_eq!(bare.whole("programsCount"), Some(2));
    let profile = object(vec![("title", text("Bot"))]);
    let shown = list_machine(&m, Some(&profile));
    assert_eq!((shown.text("title"), shown.text("avatar")), (Some("Bot"), Some("")));

    let mut creatures = Creatures::new();
    creatures
        .create(&CreatureRecord {
            id: s("10@global"),
            creature_type: s("machine"),
            username: s("p@global"),
            public_key: s(""),
            chain_id: s(""),
            subchain_id: s(""),
            owner_id: s(""),
        })
        .unwrap();
    let rows = list_program_machines(
        &creatures,
        &vec![
            ListedProgram { id: s("10@global"), comment: s("hello") },
            ListedProgram { id: s("11@global"), comment: s("gone") },
        ],
    );
    assert_eq!(rows.len(), 1);
    assert_eq!(rows[0].text("comment"), Some("hello"));
    assert_eq!(bootstrap_program(" Proxy ", "proxy", false), (true, false));
    assert_eq!(bootstrap_program("docker", "proxy", true), (true, true));
    assert_eq!(bootstrap_program("docker", "proxy", false), (false, false));
    assert_eq!(wait_for_alarm(10, 4), 6);
    assert_eq!(wait_for_alarm(4, 10), 0);
}

#[test]
fn every_action_is_installed_with_its_guard() {
    let mut actor = Actor::new();
    actions::auth::install(&mut actor);
    actions::store::install(&mut actor);
    actions::creature::install(&mut actor);
    actions::program::install(&mut actor);
    let store = actor.fetch_action("/stores/signal").unwrap();
    assert!(store.is_user && store.is_in_store);
    let money = actor.fetch_action("/creatures/createHold").unwrap();
    assert!(money.is_user && !money.allow_applet_sign);
    let login = actor.fetch_action("/creatures/login").unwrap();
    assert!(!login.is_user);
    assert!(actor.fetch_action("/machines/deploy").is_some() || actor.fetch_action("/programs/create").is_some());
    assert!(actor.fetch_action("/nowhere").is_none());
    assert_eq!(
        actions::auth::get_servers_map(&vec![s("a"), s("b")]),
        vec![s("a"), s("b")]
    );
}

#[test]
fn programs_are_changed_by_the_owner_of_their_machine() {
    let mut owners = Table::new();
    owners.put("3@global", s("1@global"));
    let mut programs = Programs::new();
    programs.create_program(program());
    assert!(programs.metadata.has("10@global"));
    let more = object(vec![("title", text("Bot"))]);
    let none = object(vec![]);
    assert_eq!(
        programs.update_program(&owners, "2@global", "10@global", "/q", &more),
        Err(ProgramFault::NotOwner)
    );
    assert_eq!(
        programs.update_program(&owners, "1@global", "11@global", "/q", &more),
        Err(ProgramFault::NotFound)
    );
    assert_eq!(programs.update_program(&owners, "1@global", "10@global", "/q", &more), Ok(()));
    assert_eq!(programs.update_program(&owners, "1@global", "10@global", "/r", &none), Ok(()));
    assert_eq!(programs.records.get("10@global").unwrap().path, "/r");
    assert_eq!(programs.metadata.get("10@global").unwrap().text("title"), Some("Bot"));
    assert_eq!(
        programs.delete_program(&owners, "2@global", "10@global"),
        Err(ProgramFault::NotOwner)
    );
    assert_eq!(programs.delete_program(&owners, "1@global", "10@global"), Ok(()));
    assert_eq!(
        programs.delete_program(&owners, "1@global", "10@global"),
        Err(ProgramFault::NotFound)
    );
    assert!(!programs.metadata.has("10@global"));
}

#[test]
fn forwarded_answers_carry_their_body() {
    let answer = answer_forwarded(&InstanceAnswer {
        runtime: s("docker"),
        machine_id: s("3@global"),
        vm_id: s("vm-1"),
        status: 201,
        body: vec![0, 1, 2],
    });
    assert_eq!(answer.text("bodyBase64"), Some("AAEC"));
    assert_eq!(answer.whole("status"), Some(201));
    assert_eq!(answer.text("protocol"), Some("http"));
}

#[test]
fn instances_get_an_identifier_of_their_own() {
    let mut n = node();
    let mut launch = || {
        match launch_program_entity(
            &mut n,
            &run_input(""),
            Some(&program()),
            Some("docker"),
            &machine(),
            "1@global",
            "",
            &payment(),
            Some(true),
        ) {
            Ok(launch) => launch.vm_id,
            Err(e) => panic!("{e}"),
        }
    };
    let (one, two) = (launch(), launch());
    assert_eq!((one.len(), two.len()), (36, 36));
    assert_ne!(one, two);
    assert!(n.vms.links.has(&format!("VmInstance::10@global::main::{one}")));
    match charge_running_standalone_vms(&vec![billed(1, 9)], -1) {
        Some((minute, dues)) => {
            assert!(minute > 28_000_000);
            assert_eq!(dues.len(), 1);
        }
        None => panic!("a minute has passed"),
    }
}
