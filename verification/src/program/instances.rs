//! Running, stopping, and deleting the instances of an entity.
use vstd::prelude::*;

use crate::clock::{is_generated_id, is_moment, new_id, now_millis};
use crate::decimal::{decimal, write_i64};
use crate::finance::ledger::link_of;
use crate::json::{Json, Tree};
use crate::packets::program::{RunProgramEntityInput, VmTerminalInput};
use crate::program::billing::{
    billing_key, granted, instance_key, instance_key_of, is_free, is_priced, normalize_vm_resources,
    payment_key, status_key, validate_and_build_vm_billing, vm_billing, vm_is_free, VmRates,
    VmRecords, VmRecordsState, VmResources,
};
use crate::program::deploy::{entity_type_of, normalize_entity_type, ProgramRecord};
use crate::program::gateway::{
    register_gateway_route, route_registered, GatewayRoute, GatewayRoutes, Route, RoutesState,
};
use crate::program::machines::{resolve_program_owner_machine, Machines, ProgramMachines};
use crate::table::{
    dropped, law_lookup_after_drop, law_lookup_after_store, lookup, stored, Rows, Table,
};
use crate::text::{copy_pairs, join2, join3, join4, pairs, same, texts, trim, trimmed};

verus! {

broadcast use {vstd::string::group_string_axioms, law_lookup_after_store};

/// The program that a request is about: the one it names, or the one that it names in
/// place of a machine.
pub open spec fn named_program(program_id: Seq<char>, machine_id: Seq<char>) -> Seq<char> {
    if program_id.len() == 0 {
        machine_id
    } else {
        program_id
    }
}

/// The program that a request is about.
pub fn requested_program(program_id: &str, machine_id: &str) -> (r: String)
    ensures
        r@ == named_program(program_id@, machine_id@),
{
    if program_id.is_empty() {
        machine_id.to_owned()
    } else {
        program_id.to_owned()
    }
}

/// Why a caller may not touch the instances of an entity.
pub open spec fn entity_refusal(
    program: Option<ProgramRecord>,
    has_entity: bool,
    machine: Machines,
    caller: Seq<char>,
) -> Option<Seq<char>> {
    if program is None {
        Some("program does not exist"@)
    } else if !has_entity {
        Some("entity does not exist"@)
    } else if machine.owner().owner_id != caller {
        Some("you are not owner of this program"@)
    } else {
        None
    }
}

fn refuse_entity(
    program: Option<&ProgramRecord>,
    has_entity: bool,
    machine: &ProgramMachines,
    caller: &str,
) -> (r: Option<String>)
    ensures
        match r {
            Some(e) => entity_refusal(
                match program {
                    Some(record) => Some(*record),
                    None => None,
                },
                has_entity,
                machine@,
                caller@,
            ) == Some(e@),
            None => entity_refusal(
                match program {
                    Some(record) => Some(*record),
                    None => None,
                },
                has_entity,
                machine@,
                caller@,
            ) is None && program is Some,
        },
{
    if program.is_none() {
        return Some("program does not exist".to_owned());
    }
    if !has_entity {
        return Some("entity does not exist".to_owned());
    }
    let owner = resolve_program_owner_machine(&machine.recorded, &machine.linked);
    if !same(owner.owner_id.as_str(), caller) {
        return Some("you are not owner of this program".to_owned());
    }
    None
}

// ---------------------------------------------------------------- running

/// The records of the node that starting and stopping instances change.
pub struct Node {
    pub vms: VmRecords,
    pub gateway: GatewayRoutes,
}

/// The records of the node, as texts.
pub struct NodeState {
    pub vms: VmRecordsState,
    pub gateway: RoutesState,
}

impl View for Node {
    type V = NodeState;

    open spec fn view(&self) -> NodeState {
        NodeState { vms: self.vms@, gateway: self.gateway@ }
    }
}

/// How an instance is paid for: the payer's lock, what the node charges, to whom, and which
/// of the signatures were found good.
pub struct Payment {
    pub lock: Option<Json>,
    pub node_owner: String,
    pub rates: VmRates,
    pub verified: Vec<bool>,
}

impl Payment {
    /// The payer's lock.
    pub open spec fn lock_tree(self) -> Option<Tree> {
        match self.lock {
            Some(lock) => Some(lock@),
            None => None,
        }
    }
}

/// What the virtual machine monitor is asked to start, and the environment it starts in.
pub struct Launch {
    pub program_id: String,
    pub machine_id: String,
    pub entity_id: String,
    pub vm_id: String,
    pub entity_type: String,
    pub resources: VmResources,
    pub params: Vec<(String, String)>,
}

/// What the virtual machine monitor is asked to start, as texts.
pub struct LaunchState {
    pub program_id: Seq<char>,
    pub machine_id: Seq<char>,
    pub entity_id: Seq<char>,
    pub vm_id: Seq<char>,
    pub entity_type: Seq<char>,
    pub resources: VmResources,
    pub params: Seq<(Seq<char>, Seq<char>)>,
}

impl View for Launch {
    type V = LaunchState;

    open spec fn view(&self) -> LaunchState {
        LaunchState {
            program_id: self.program_id@,
            machine_id: self.machine_id@,
            entity_id: self.entity_id@,
            vm_id: self.vm_id@,
            entity_type: self.entity_type@,
            resources: self.resources,
            params: pairs(self.params@),
        }
    }
}

/// The key of the time at which an instance was started.
pub open spec fn started_key(vm: Seq<char>) -> Seq<char> {
    "VmStartedAt::"@ + vm
}

/// Whether the state of an entity's instances is shared by the cluster.
pub open spec fn is_distributed(
    links: Rows<Seq<char>>,
    program: Seq<char>,
    entity: Seq<char>,
) -> bool {
    link_of(links, "vmDistribution::"@ + program) == "cluster"@ || link_of(
        links,
        "vmDistribution::"@ + program + "::"@ + entity,
    ) == "cluster"@
}

/// The links of an instance that was just started.
pub open spec fn started_links(
    links: Rows<Seq<char>>,
    program: Seq<char>,
    entity: Seq<char>,
    vm: Seq<char>,
    now: int,
) -> Rows<Seq<char>> {
    let running = stored(
        stored(links, status_key(vm), "running"@),
        started_key(vm),
        decimal(now),
    );
    if is_distributed(running, program, entity) {
        stored(running, "vmDistributed::"@ + vm, "true"@)
    } else {
        running
    }
}

/// The routes after an instance was bound to a path; unchanged where it asks for none.
pub open spec fn started_routes(
    routes: RoutesState,
    machine: Machines,
    program: Seq<char>,
    entity: Seq<char>,
    entity_type: Seq<char>,
    vm: Seq<char>,
    gateway_path: Seq<char>,
) -> RoutesState {
    let owner = machine.owner();
    if gateway_path.len() == 0 {
        routes
    } else {
        route_registered(
            routes,
            Route {
                creature_id: owner.id,
                path: gateway_path,
                program_id: program,
                entity_id: entity,
                runtime: entity_type,
                pinned_vm_id: vm,
            },
            owner.local_part,
        )
    }
}

/// The billing record of an instance, with the instance that it pays for.
pub open spec fn instance_billing(
    record: Tree,
    machine: Seq<char>,
    entity: Seq<char>,
    vm: Seq<char>,
) -> Tree {
    record.with("machineId"@, Tree::Text(machine)).with("entityId"@, Tree::Text(entity)).with(
        "vmId"@,
        Tree::Text(vm),
    )
}

/// The records after an instance of an entity was started, and what the virtual machine
/// monitor is asked for. `entity_type` is the type of the entity, where it exists;
/// `gateway_path` the path it asks for; `offers` whether the monitor runs that type, where
/// there is a monitor.
pub open spec fn entity_run(
    node: NodeState,
    input: RunProgramEntityInput,
    program: Option<ProgramRecord>,
    entity_type: Option<Seq<char>>,
    machine: Machines,
    caller: Seq<char>,
    vm: Seq<char>,
    now: int,
    gateway_path: Seq<char>,
    payment: Payment,
    offers: Option<bool>,
) -> Result<(NodeState, LaunchState), Seq<char>> {
    match entity_refusal(program, entity_type is Some, machine, caller) {
        Some(e) => Err(e),
        None => {
            let id = program->0.id@;
            let entity = input.entity_id@;
            let runtime = entity_type_of(entity_type->0);
            let resources = granted(input.resources);
            let links = started_links(node.vms.links, id, entity, vm, now);
            let billed = if is_free(payment.rates) {
                Ok(node.vms.billing)
            } else {
                match vm_billing(
                    payment.lock_tree(),
                    payment.node_owner@,
                    caller,
                    input.payment_lock_id@,
                    texts(input.payment_signatures@),
                    payment.verified@,
                    payment.rates,
                    resources,
                ) {
                    Err(e) => Err(e),
                    Ok(record) => Ok(
                        stored(
                            node.vms.billing,
                            payment_key(vm),
                            instance_billing(record, input.machine_id@, entity, vm),
                        ),
                    ),
                }
            };
            let listed = if is_free(payment.rates) {
                links
            } else {
                stored(links, billing_key(vm), "true"@)
            };
            match billed {
                Err(e) => Err(e),
                Ok(billing) => match offers {
                    None => Err("this node has no VMM (ASEMAN_VMM_ENDPOINT)"@),
                    Some(false) => Err("invalid entity type"@),
                    Some(true) => Ok(
                        (
                            NodeState {
                                vms: VmRecordsState {
                                    links: stored(listed, instance_key(id, entity, vm), "true"@),
                                    billing,
                                },
                                gateway: started_routes(
                                    node.gateway,
                                    machine,
                                    id,
                                    entity,
                                    runtime,
                                    vm,
                                    gateway_path,
                                ),
                            },
                            LaunchState {
                                program_id: id,
                                machine_id: program->0.machine_id@,
                                entity_id: entity,
                                vm_id: vm,
                                entity_type: runtime,
                                resources,
                                params: pairs(input.params@),
                            },
                        ),
                    ),
                },
            }
        },
    }
}

fn link_is(links: &Table<String>, key: &str, wanted: &str) -> (r: bool)
    requires
        wanted@.len() > 0,
    ensures
        r == (link_of(links@, key@) == wanted@),
{
    match links.get(key) {
        Some(text) => same(text.as_str(), wanted),
        None => false,
    }
}

fn start_links(links: &mut Table<String>, program: &str, entity: &str, vm: &str, now: i64)
    ensures
        final(links)@ == started_links(old(links)@, program@, entity@, vm@, now as int),
{
    proof {
        reveal_strlit("cluster");
    }
    let status = join2("VmStatus::", vm);
    let started = join2("VmStartedAt::", vm);
    links.put(status.as_str(), "running".to_owned());
    links.put(started.as_str(), write_i64(now));
    let all = join2("vmDistribution::", program);
    let one = join4("vmDistribution::", program, "::", entity);
    if link_is(&*links, all.as_str(), "cluster") || link_is(&*links, one.as_str(), "cluster") {
        let shared = join2("vmDistributed::", vm);
        links.put(shared.as_str(), "true".to_owned());
    }
}

/// Start an instance of an entity. It is billed unless the node charges nothing.
pub fn run_program_entity(
    node: &mut Node,
    input: &RunProgramEntityInput,
    program: Option<&ProgramRecord>,
    entity_type: Option<&str>,
    machine: &ProgramMachines,
    caller: &str,
    vm: &str,
    now: i64,
    gateway_path: &str,
    payment: &Payment,
    offers: Option<bool>,
) -> (r: Result<Launch, String>)
    requires
        is_free(payment.rates) || is_priced(payment.rates, granted(input.resources)),
    ensures
        match r {
            Ok(launch) => entity_run(
                old(node)@,
                *input,
                match program {
                    Some(record) => Some(*record),
                    None => None,
                },
                match entity_type {
                    Some(text) => Some(text@),
                    None => None,
                },
                machine@,
                caller@,
                vm@,
                now as int,
                gateway_path@,
                *payment,
                offers,
            ) == Ok::<(NodeState, LaunchState), Seq<char>>((final(node)@, launch@)),
            Err(e) => final(node)@ == old(node)@ && entity_run(
                old(node)@,
                *input,
                match program {
                    Some(record) => Some(*record),
                    None => None,
                },
                match entity_type {
                    Some(text) => Some(text@),
                    None => None,
                },
                machine@,
                caller@,
                vm@,
                now as int,
                gateway_path@,
                *payment,
                offers,
            ) == Err::<(NodeState, LaunchState), Seq<char>>(e@),
        },
{
    match refuse_entity(program, entity_type.is_some(), machine, caller) {
        Some(e) => {
            return Err(e);
        },
        None => {},
    }
    let (record, stated) = match (program, entity_type) {
        (Some(record), Some(stated)) => (record, stated),
        _ => {
            return Err("entity does not exist".to_owned());
        },
    };
    let runtime = normalize_entity_type(stated);
    let resources = normalize_vm_resources(&input.resources);
    let entity = input.entity_id.as_str();
    let free: bool = vm_is_free(&payment.rates);
    let billing: Option<Json> = if free {
        None
    } else {
        let lock: Option<&Json> = match &payment.lock {
            Some(lock) => Some(lock),
            None => None,
        };
        match validate_and_build_vm_billing(
            lock,
            payment.node_owner.as_str(),
            caller,
            input.payment_lock_id.as_str(),
            &input.payment_signatures,
            &payment.verified,
            &payment.rates,
            &resources,
        ) {
            Ok(record) => Some(
                record.with("machineId", Json::Text(input.machine_id.clone())).with(
                    "entityId",
                    Json::Text(input.entity_id.clone()),
                ).with("vmId", Json::Text(vm.to_owned())),
            ),
            Err(e) => {
                return Err(e);
            },
        }
    };
    match offers {
        None => {
            return Err("this node has no VMM (ASEMAN_VMM_ENDPOINT)".to_owned());
        },
        Some(false) => {
            return Err("invalid entity type".to_owned());
        },
        Some(true) => {},
    }
    start_links(&mut node.vms.links, record.id.as_str(), entity, vm, now);
    if !gateway_path.is_empty() {
        let owner = resolve_program_owner_machine(&machine.recorded, &machine.linked);
        let route = GatewayRoute {
            creature_id: owner.id,
            path: gateway_path.to_owned(),
            program_id: record.id.clone(),
            entity_id: input.entity_id.clone(),
            runtime: runtime.clone(),
            pinned_vm_id: vm.to_owned(),
        };
        register_gateway_route(&mut node.gateway, &route, owner.local_part.as_str());
    }
    match billing {
        Some(bill) => {
            let listed = join2("VmBilling::", vm);
            let key = join2("Json::VmBilling::", vm);
            node.vms.links.put(listed.as_str(), "true".to_owned());
            node.vms.billing.put(key.as_str(), bill);
        },
        None => {},
    }
    let instance = instance_key_of(record.id.as_str(), entity, vm);
    node.vms.links.put(instance.as_str(), "true".to_owned());
    Ok(
        Launch {
            program_id: record.id.clone(),
            machine_id: record.machine_id.clone(),
            entity_id: input.entity_id.clone(),
            vm_id: vm.to_owned(),
            entity_type: runtime,
            resources,
            params: copy_pairs(&input.params),
        },
    )
}

/// Run an entity of a program in an instance of its own, which gets a new identifier and
/// starts now.
pub fn launch_program_entity(
    node: &mut Node,
    input: &RunProgramEntityInput,
    program: Option<&ProgramRecord>,
    entity_type: Option<&str>,
    machine: &ProgramMachines,
    caller: &str,
    gateway_path: &str,
    payment: &Payment,
    offers: Option<bool>,
) -> (r: Result<Launch, String>)
    requires
        is_free(payment.rates) || is_priced(payment.rates, granted(input.resources)),
    ensures
        exists|vm: Seq<char>, now: int|
            {
                let outcome = entity_run(
                    old(node)@,
                    *input,
                    match program {
                        Some(record) => Some(*record),
                        None => None,
                    },
                    match entity_type {
                        Some(text) => Some(text@),
                        None => None,
                    },
                    machine@,
                    caller@,
                    vm,
                    now,
                    gateway_path@,
                    *payment,
                    offers,
                );
                &&& #[trigger] is_generated_id(vm)
                &&& #[trigger] is_moment(now)
                &&& match r {
                    Ok(launch) => outcome == Ok::<(NodeState, LaunchState), Seq<char>>(
                        (final(node)@, launch@),
                    ),
                    Err(e) => final(node)@ == old(node)@ && outcome == Err::<
                        (NodeState, LaunchState),
                        Seq<char>,
                    >(e@),
                }
            },
{
    let vm = new_id();
    let now: i64 = now_millis();
    assert(is_moment(now as int));
    run_program_entity(
        node,
        input,
        program,
        entity_type,
        machine,
        caller,
        vm.as_str(),
        now,
        gateway_path,
        payment,
        offers,
    )
}

// ---------------------------------------------------------------- stopping

/// The key of the image name that the instances of an entity share.
pub open spec fn image_key(program: Seq<char>, entity: Seq<char>) -> Seq<char> {
    "vmStandaloneImageName::"@ + program + "::"@ + entity
}

/// The key of the container name that the instances of an entity share.
pub open spec fn container_key(program: Seq<char>, entity: Seq<char>) -> Seq<char> {
    "vmStandaloneContainerName::"@ + program + "::"@ + entity
}

/// The records without those that describe a running instance.
pub open spec fn stopped_records(
    records: VmRecordsState,
    program: Seq<char>,
    entity: Seq<char>,
    vm: Seq<char>,
) -> VmRecordsState {
    VmRecordsState {
        links: dropped(
            dropped(
                dropped(
                    dropped(
                        dropped(dropped(records.links, status_key(vm)), started_key(vm)),
                        instance_key(program, entity, vm),
                    ),
                    billing_key(vm),
                ),
                image_key(program, entity),
            ),
            container_key(program, entity),
        ),
        billing: dropped(records.billing, payment_key(vm)),
    }
}

fn drop_running(records: &mut VmRecords, program: &str, entity: &str, vm: &str)
    ensures
        final(records)@ == stopped_records(old(records)@, program@, entity@, vm@),
{
    let status = join2("VmStatus::", vm);
    let started = join2("VmStartedAt::", vm);
    let instance = instance_key_of(program, entity, vm);
    let listed = join2("VmBilling::", vm);
    let payment = join2("Json::VmBilling::", vm);
    let image = join4("vmStandaloneImageName::", program, "::", entity);
    let container = join4("vmStandaloneContainerName::", program, "::", entity);
    records.links.remove(status.as_str());
    records.links.remove(started.as_str());
    records.links.remove(instance.as_str());
    records.links.remove(listed.as_str());
    records.links.remove(image.as_str());
    records.links.remove(container.as_str());
    records.billing.remove(payment.as_str());
}

/// The records after an instance was stopped; `has_vmm` is whether the node has a virtual
/// machine monitor to stop it.
pub open spec fn entity_stopped(
    records: VmRecordsState,
    input: RunProgramEntityInput,
    program: Option<ProgramRecord>,
    has_entity: bool,
    machine: Machines,
    caller: Seq<char>,
    has_vmm: bool,
) -> Result<VmRecordsState, Seq<char>> {
    match entity_refusal(program, has_entity, machine, caller) {
        Some(e) => Err(e),
        None => if !has_vmm {
            Err("this node has no VMM (ASEMAN_VMM_ENDPOINT)"@)
        } else {
            Ok(stopped_records(records, program->0.id@, input.entity_id@, input.vm_id@))
        },
    }
}

/// Stop an instance. Its volume survives, and it may be started again.
pub fn stop_program_entity(
    records: &mut VmRecords,
    input: &RunProgramEntityInput,
    program: Option<&ProgramRecord>,
    has_entity: bool,
    machine: &ProgramMachines,
    caller: &str,
    has_vmm: bool,
) -> (r: Result<(), String>)
    ensures
        match r {
            Ok(_) => entity_stopped(
                old(records)@,
                *input,
                match program {
                    Some(record) => Some(*record),
                    None => None,
                },
                has_entity,
                machine@,
                caller@,
                has_vmm,
            ) == Ok::<VmRecordsState, Seq<char>>(final(records)@),
            Err(e) => final(records)@ == old(records)@ && entity_stopped(
                old(records)@,
                *input,
                match program {
                    Some(record) => Some(*record),
                    None => None,
                },
                has_entity,
                machine@,
                caller@,
                has_vmm,
            ) == Err::<VmRecordsState, Seq<char>>(e@),
        },
{
    match refuse_entity(program, has_entity, machine, caller) {
        Some(e) => {
            return Err(e);
        },
        None => {},
    }
    if !has_vmm {
        return Err("this node has no VMM (ASEMAN_VMM_ENDPOINT)".to_owned());
    }
    match program {
        Some(record) => drop_running(
            records,
            record.id.as_str(),
            input.entity_id.as_str(),
            input.vm_id.as_str(),
        ),
        None => {},
    }
    Ok(())
}

// ---------------------------------------------------------------- deleting

/// Why an instance cannot be deleted by a caller, or its identifier.
pub open spec fn deletable(
    records: VmRecordsState,
    input: RunProgramEntityInput,
    program: Option<ProgramRecord>,
    has_entity: bool,
    machine: Machines,
    caller: Seq<char>,
) -> Result<Seq<char>, Seq<char>> {
    let vm = trimmed(input.vm_id@);
    match entity_refusal(program, has_entity, machine, caller) {
        Some(e) => Err(e),
        None => if vm.len() == 0 {
            Err("vmId is required"@)
        } else if link_of(
            records.links,
            instance_key(program->0.id@, input.entity_id@, vm),
        ).len() == 0 {
            Err("vm does not belong to this entity"@)
        } else {
            Ok(vm)
        },
    }
}

/// The instance that a caller may delete: one that the entity itself started.
pub fn deletable_vm(
    records: &VmRecords,
    input: &RunProgramEntityInput,
    program: Option<&ProgramRecord>,
    has_entity: bool,
    machine: &ProgramMachines,
    caller: &str,
) -> (r: Result<String, String>)
    ensures
        match r {
            Ok(vm) => deletable(
                records@,
                *input,
                match program {
                    Some(record) => Some(*record),
                    None => None,
                },
                has_entity,
                machine@,
                caller@,
            ) == Ok::<Seq<char>, Seq<char>>(vm@),
            Err(e) => deletable(
                records@,
                *input,
                match program {
                    Some(record) => Some(*record),
                    None => None,
                },
                has_entity,
                machine@,
                caller@,
            ) == Err::<Seq<char>, Seq<char>>(e@),
        },
{
    match refuse_entity(program, has_entity, machine, caller) {
        Some(e) => {
            return Err(e);
        },
        None => {},
    }
    let record = match program {
        Some(record) => record,
        None => {
            return Err("program does not exist".to_owned());
        },
    };
    let vm = trim(input.vm_id.as_str());
    if vm.is_empty() {
        return Err("vmId is required".to_owned());
    }
    let key = instance_key_of(record.id.as_str(), input.entity_id.as_str(), vm);
    let belongs: bool = match records.links.get(key.as_str()) {
        Some(text) => !text.as_str().is_empty(),
        None => false,
    };
    if !belongs {
        return Err("vm does not belong to this entity".to_owned());
    }
    Ok(vm.to_owned())
}

/// What came of asking the virtual machine monitor to destroy an instance.
pub enum Destruction {
    NoVmm,
    Failed(String),
    Done,
}

/// The records without anything that describes an instance.
pub open spec fn forgotten(
    records: VmRecordsState,
    program: Seq<char>,
    entity: Seq<char>,
    vm: Seq<char>,
) -> VmRecordsState {
    let stopped = stopped_records(records, program, entity, vm);
    VmRecordsState {
        links: dropped(
            dropped(
                dropped(stopped.links, "vmDistributed::"@ + vm),
                "VmOwnerProgram::"@ + vm,
            ),
            "VmContainerName::"@ + program + "::"@ + entity + "::"@ + vm,
        ),
        ..stopped
    }
}

/// The records after an instance was deleted. They change only once it was destroyed, so
/// that a failed attempt stays visible and can be repeated.
pub open spec fn entity_deleted(
    records: VmRecordsState,
    input: RunProgramEntityInput,
    program: Option<ProgramRecord>,
    has_entity: bool,
    machine: Machines,
    caller: Seq<char>,
    outcome: Destruction,
) -> Result<(VmRecordsState, Seq<char>), Seq<char>> {
    match deletable(records, input, program, has_entity, machine, caller) {
        Err(e) => Err(e),
        Ok(vm) => match outcome {
            Destruction::NoVmm => Err("this node has no VMM (ASEMAN_VMM_ENDPOINT)"@),
            Destruction::Failed(e) => Err(e@),
            Destruction::Done => Ok(
                (forgotten(records, program->0.id@, input.entity_id@, vm), vm),
            ),
        },
    }
}

/// Forget an instance that was destroyed.
pub fn delete_program_entity(
    records: &mut VmRecords,
    input: &RunProgramEntityInput,
    program: Option<&ProgramRecord>,
    has_entity: bool,
    machine: &ProgramMachines,
    caller: &str,
    outcome: &Destruction,
) -> (r: Result<String, String>)
    ensures
        match r {
            Ok(vm) => entity_deleted(
                old(records)@,
                *input,
                match program {
                    Some(record) => Some(*record),
                    None => None,
                },
                has_entity,
                machine@,
                caller@,
                *outcome,
            ) == Ok::<(VmRecordsState, Seq<char>), Seq<char>>((final(records)@, vm@)),
            Err(e) => final(records)@ == old(records)@ && entity_deleted(
                old(records)@,
                *input,
                match program {
                    Some(record) => Some(*record),
                    None => None,
                },
                has_entity,
                machine@,
                caller@,
                *outcome,
            ) == Err::<(VmRecordsState, Seq<char>), Seq<char>>(e@),
        },
{
    let vm = match deletable_vm(&*records, input, program, has_entity, machine, caller) {
        Ok(vm) => vm,
        Err(e) => {
            return Err(e);
        },
    };
    match outcome {
        Destruction::NoVmm => {
            return Err("this node has no VMM (ASEMAN_VMM_ENDPOINT)".to_owned());
        },
        Destruction::Failed(e) => {
            return Err(e.clone());
        },
        Destruction::Done => {},
    }
    let record = match program {
        Some(record) => record,
        None => {
            return Err("program does not exist".to_owned());
        },
    };
    let entity = input.entity_id.as_str();
    drop_running(records, record.id.as_str(), entity, vm.as_str());
    let shared = join2("vmDistributed::", vm.as_str());
    let owner = join2("VmOwnerProgram::", vm.as_str());
    let head = join4("VmContainerName::", record.id.as_str(), "::", entity);
    let container = join3(head.as_str(), "::", vm.as_str());
    records.links.remove(shared.as_str());
    records.links.remove(owner.as_str());
    records.links.remove(container.as_str());
    Ok(vm)
}

// ---------------------------------------------------------------- terminals

/// The key that opens the terminal of an instance to a user.
pub open spec fn terminal_key(creature: Seq<char>, vm: Seq<char>, user: Seq<char>) -> Seq<char> {
    "VmTerminal::"@ + creature + "::"@ + vm + "::"@ + user
}

/// The links after the terminal of an instance was opened or closed to a user.
pub open spec fn terminal_set(
    links: Rows<Seq<char>>,
    input: VmTerminalInput,
    exists: bool,
    machine: Machines,
    caller: Seq<char>,
    open: bool,
) -> Result<Rows<Seq<char>>, Seq<char>> {
    let key = terminal_key(input.creature_id@, input.vm_id@, caller);
    if !exists {
        Err("program does not exist"@)
    } else if machine.owner().owner_id != caller {
        Err("you are not owner of this creature"@)
    } else if open {
        Ok(stored(links, key, "true"@))
    } else {
        Ok(dropped(links, key))
    }
}

/// Open the terminal of an instance to its owner, or close it; `exists` is whether there
/// is such a program.
pub fn set_vm_terminal(
    links: &mut Table<String>,
    input: &VmTerminalInput,
    exists: bool,
    machine: &ProgramMachines,
    caller: &str,
    open: bool,
) -> (r: Result<(), String>)
    ensures
        match r {
            Ok(_) => terminal_set(old(links)@, *input, exists, machine@, caller@, open) == Ok::<
                Rows<Seq<char>>,
                Seq<char>,
            >(final(links)@),
            Err(e) => final(links)@ == old(links)@ && terminal_set(
                old(links)@,
                *input,
                exists,
                machine@,
                caller@,
                open,
            ) == Err::<Rows<Seq<char>>, Seq<char>>(e@),
        },
{
    if !exists {
        return Err("program does not exist".to_owned());
    }
    let owner = resolve_program_owner_machine(&machine.recorded, &machine.linked);
    if !same(owner.owner_id.as_str(), caller) {
        return Err("you are not owner of this creature".to_owned());
    }
    let head = join4(
        "VmTerminal::",
        input.creature_id.as_str(),
        "::",
        input.vm_id.as_str(),
    );
    let key = join3(head.as_str(), "::", caller);
    if open {
        links.put(key.as_str(), "true".to_owned());
    } else {
        links.remove(key.as_str());
    }
    Ok(())
}

// ---------------------------------------------------------------- laws

proof fn lemma_drop_chain(links: Rows<Seq<char>>, gone: Seq<char>, next: Seq<char>)
    requires
        lookup(links, gone) is None,
    ensures
        lookup(dropped(links, next), gone) is None,
        lookup(dropped(links, next), next) is None,
{
    law_lookup_after_drop(links, next, gone);
    law_lookup_after_drop(links, next, next);
}

/// An instance that was stopped is not recorded as running, listed, or billed any more.
pub proof fn law_a_stopped_instance_leaves_no_record(
    records: VmRecordsState,
    program: Seq<char>,
    entity: Seq<char>,
    vm: Seq<char>,
)
    ensures
        ({
            let after = stopped_records(records, program, entity, vm);
            &&& lookup(after.links, status_key(vm)) is None
            &&& lookup(after.links, started_key(vm)) is None
            &&& lookup(after.links, instance_key(program, entity, vm)) is None
            &&& lookup(after.links, billing_key(vm)) is None
            &&& lookup(after.billing, payment_key(vm)) is None
        }),
{
    let a = status_key(vm);
    let b = started_key(vm);
    let c = instance_key(program, entity, vm);
    let d = billing_key(vm);
    let e = image_key(program, entity);
    let f = container_key(program, entity);
    let l1 = dropped(records.links, a);
    let l2 = dropped(l1, b);
    let l3 = dropped(l2, c);
    let l4 = dropped(l3, d);
    let l5 = dropped(l4, e);
    law_lookup_after_drop(records.links, a, a);
    lemma_drop_chain(l1, a, b);
    lemma_drop_chain(l2, a, c);
    lemma_drop_chain(l2, b, c);
    lemma_drop_chain(l3, a, d);
    lemma_drop_chain(l3, b, d);
    lemma_drop_chain(l3, c, d);
    lemma_drop_chain(l4, a, e);
    lemma_drop_chain(l4, b, e);
    lemma_drop_chain(l4, c, e);
    lemma_drop_chain(l4, d, e);
    lemma_drop_chain(l5, a, f);
    lemma_drop_chain(l5, b, f);
    lemma_drop_chain(l5, c, f);
    lemma_drop_chain(l5, d, f);
    law_lookup_after_drop(records.billing, payment_key(vm), payment_key(vm));
}

/// A deleted instance no longer belongs to its entity: it cannot be deleted again.
pub proof fn law_an_instance_is_deleted_once(
    records: VmRecordsState,
    input: RunProgramEntityInput,
    program: Option<ProgramRecord>,
    machine: Machines,
    caller: Seq<char>,
    after: VmRecordsState,
    vm: Seq<char>,
    outcome: Destruction,
)
    requires
        entity_deleted(records, input, program, true, machine, caller, Destruction::Done) == Ok::<
            (VmRecordsState, Seq<char>),
            Seq<char>,
        >((after, vm)),
    ensures
        entity_deleted(after, input, program, true, machine, caller, outcome) == Err::<
            (VmRecordsState, Seq<char>),
            Seq<char>,
        >("vm does not belong to this entity"@),
{
    let id = program->0.id@;
    let entity = input.entity_id@;
    let key = instance_key(id, entity, vm);
    law_a_stopped_instance_leaves_no_record(records, id, entity, vm);
    let stopped = stopped_records(records, id, entity, vm).links;
    lemma_drop_chain(stopped, key, "vmDistributed::"@ + vm);
    let two = dropped(stopped, "vmDistributed::"@ + vm);
    lemma_drop_chain(two, key, "VmOwnerProgram::"@ + vm);
    let three = dropped(two, "VmOwnerProgram::"@ + vm);
    lemma_drop_chain(
        three,
        key,
        "VmContainerName::"@ + id + "::"@ + entity + "::"@ + vm,
    );
}

/// Only the owner of a program's machine starts, stops, or deletes its instances.
pub proof fn law_only_the_owner_handles_instances(
    node: NodeState,
    input: RunProgramEntityInput,
    program: Option<ProgramRecord>,
    entity_type: Option<Seq<char>>,
    machine: Machines,
    caller: Seq<char>,
    vm: Seq<char>,
    now: int,
    gateway_path: Seq<char>,
    payment: Payment,
    offers: Option<bool>,
    has_vmm: bool,
    outcome: Destruction,
)
    requires
        machine.owner().owner_id != caller,
    ensures
        entity_run(
            node,
            input,
            program,
            entity_type,
            machine,
            caller,
            vm,
            now,
            gateway_path,
            payment,
            offers,
        ) is Err,
        entity_stopped(
            node.vms,
            input,
            program,
            entity_type is Some,
            machine,
            caller,
            has_vmm,
        ) is Err,
        entity_deleted(
            node.vms,
            input,
            program,
            entity_type is Some,
            machine,
            caller,
            outcome,
        ) is Err,
{
}

} // verus!
