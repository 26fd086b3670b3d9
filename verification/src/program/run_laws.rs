//! When an instance is started, stopped and deleted, and what the node then records of it.
use vstd::prelude::*;

use crate::decimal::decimal;
use crate::json::Tree;
use crate::packets::program::{RunProgramEntityInput, VmTerminalInput};
use crate::program::billing::{vm_billing, VmRecordsState};
use crate::program::deploy::ProgramRecord;
use crate::program::gateway::{route_registered, Route};
use crate::program::instances::{
    entity_deleted, entity_run, entity_stopped, instance_billing, is_distributed, stopped_records,
    terminal_set, Destruction, LaunchState, NodeState, Payment,
};
use crate::program::machines::Machines;
use crate::table::{dropped, law_lookup_after_drop, law_lookup_after_store, lookup, stored, Rows};
use crate::text::{pairs, texts, trimmed};

verus! {

broadcast use law_lookup_after_store;

// ---------------------------------------------------------------- keys

proof fn lemma_vm_keys(vm: Seq<char>, program: Seq<char>, entity: Seq<char>)
    ensures
        ({
            let status = "VmStatus::"@ + vm;
            let started = "VmStartedAt::"@ + vm;
            let spread = "vmDistributed::"@ + vm;
            let billed = "VmBilling::"@ + vm;
            let instance = "VmInstance::"@ + program + "::"@ + entity + "::"@ + vm;
            &&& status != started && status != spread && status != billed && status != instance
            &&& started != spread && started != billed && started != instance
            &&& spread != billed && spread != instance
            &&& billed != instance
        }),
{
    reveal_strlit("VmStatus::");
    reveal_strlit("VmStartedAt::");
    reveal_strlit("vmDistributed::");
    reveal_strlit("VmBilling::");
    reveal_strlit("VmInstance::");
    let status = "VmStatus::"@ + vm;
    let started = "VmStartedAt::"@ + vm;
    let spread = "vmDistributed::"@ + vm;
    let billed = "VmBilling::"@ + vm;
    let instance = "VmInstance::"@ + program + "::"@ + entity + "::"@ + vm;
    assert(status[0] == 'V' && status[2] == 'S' && status[5] == 't');
    assert(started[0] == 'V' && started[2] == 'S' && started[5] == 'r');
    assert(spread[0] == 'v');
    assert(billed[0] == 'V' && billed[2] == 'B');
    assert(instance[0] == 'V' && instance[2] == 'I');
}

/// Whether a program or an entity of it was deployed to every node.
pub open spec fn runs_everywhere(
    links: Rows<Seq<char>>,
    program: Seq<char>,
    entity: Seq<char>,
) -> bool {
    lookup(links, "vmDistribution::"@ + program) == Some("cluster"@) || lookup(
        links,
        "vmDistribution::"@ + program + "::"@ + entity,
    ) == Some("cluster"@)
}

proof fn lemma_spread(
    links: Rows<Seq<char>>,
    program: Seq<char>,
    entity: Seq<char>,
    vm: Seq<char>,
    now: int,
)
    ensures
        is_distributed(
            stored(
                stored(links, "VmStatus::"@ + vm, "running"@),
                "VmStartedAt::"@ + vm,
                decimal(now),
            ),
            program,
            entity,
        ) == runs_everywhere(links, program, entity),
{
    reveal_strlit("VmStatus::");
    reveal_strlit("VmStartedAt::");
    reveal_strlit("vmDistribution::");
    reveal_strlit("cluster");
    assert("cluster"@.len() == 7);
    let status = "VmStatus::"@ + vm;
    let started = "VmStartedAt::"@ + vm;
    let a = "vmDistribution::"@ + program;
    let b = "vmDistribution::"@ + program + "::"@ + entity;
    assert(status[0] == 'V' && started[0] == 'V' && a[0] == 'v' && b[0] == 'v');
}

// ---------------------------------------------------------------- starting

/// An instance is started exactly where its program and entity exist, its owner asks, the monitor
/// runs its type, and, unless the node is free, a lock pays for it.
pub proof fn law_owners_start_what_is_paid_for(
    node: NodeState,
    input: RunProgramEntityInput,
    program: Option<ProgramRecord>,
    entity_type: Option<Seq<char>>,
    machine: Machines,
    caller: Seq<char>,
    vm: Seq<char>,
    now: int,
    gateway_path: Seq<char>,
    payment: Payment,
    offers: Option<bool>,
)
    ensures
        (entity_run(
            node,
            input,
            program,
            entity_type,
            machine,
            caller,
            vm,
            now,
            gateway_path,
            payment,
            offers,
        ) is Ok) == {
            let rates = payment.rates;
            &&& program is Some
            &&& entity_type is Some
            &&& machine.owner().owner_id == caller
            &&& offers == Some(true)
            &&& (rates.ram_per_mb == 0 && rates.per_cpu_core == 0 && rates.disk_per_gb == 0)
                || vm_billing(
                payment.lock_tree(),
                payment.node_owner@,
                caller,
                input.payment_lock_id@,
                texts(input.payment_signatures@),
                payment.verified@,
                rates,
                crate::program::billing::granted(input.resources),
            ) is Ok
        },
{
}

/// A started instance is recorded as running since then and as one of its entity, is billed where
/// the node is not free, with the record of the lock that pays for it, and answers its path where
/// it has one. The monitor is asked for exactly what was asked for; nothing else changes.
#[verifier::rlimit(40)]
pub proof fn law_a_started_instance_is_recorded(
    node: NodeState,
    input: RunProgramEntityInput,
    program: ProgramRecord,
    entity_type: Seq<char>,
    machine: Machines,
    caller: Seq<char>,
    vm: Seq<char>,
    now: int,
    gateway_path: Seq<char>,
    payment: Payment,
    offers: Option<bool>,
    after: NodeState,
    launch: LaunchState,
    other: Seq<char>,
)
    requires
        entity_run(
            node,
            input,
            Some(program),
            Some(entity_type),
            machine,
            caller,
            vm,
            now,
            gateway_path,
            payment,
            offers,
        ) == Ok::<(NodeState, LaunchState), Seq<char>>((after, launch)),
    ensures
        ({
            let rates = payment.rates;
            let free = rates.ram_per_mb == 0 && rates.per_cpu_core == 0 && rates.disk_per_gb == 0;
            let id = program.id@;
            let entity = input.entity_id@;
            let status = "VmStatus::"@ + vm;
            let started = "VmStartedAt::"@ + vm;
            let spread = "vmDistributed::"@ + vm;
            let billed = "VmBilling::"@ + vm;
            let instance = "VmInstance::"@ + id + "::"@ + entity + "::"@ + vm;
            let bill = "Json::VmBilling::"@ + vm;
            let links = after.vms.links;
            &&& lookup(links, status) == Some("running"@)
            &&& lookup(links, started) == Some(decimal(now))
            &&& lookup(links, instance) == Some("true"@)
            &&& runs_everywhere(node.vms.links, id, entity) ==> lookup(links, spread) == Some(
                "true"@,
            )
            &&& !runs_everywhere(node.vms.links, id, entity) ==> lookup(links, spread) == lookup(
                node.vms.links,
                spread,
            )
            &&& !free ==> lookup(links, billed) == Some("true"@)
            &&& free ==> lookup(links, billed) == lookup(node.vms.links, billed)
            &&& other != status && other != started && other != instance && other != spread && other
                != billed ==> lookup(links, other) == lookup(node.vms.links, other)
            &&& free ==> after.vms.billing == node.vms.billing
            &&& !free ==> (vm_billing(
                payment.lock_tree(),
                payment.node_owner@,
                caller,
                input.payment_lock_id@,
                texts(input.payment_signatures@),
                payment.verified@,
                rates,
                crate::program::billing::granted(input.resources),
            ) matches Ok(record) && lookup(after.vms.billing, bill) == Some(
                instance_billing(record, input.machine_id@, entity, vm),
            ))
            &&& other != bill ==> lookup(after.vms.billing, other) == lookup(
                node.vms.billing,
                other,
            )
            &&& gateway_path.len() == 0 ==> after.gateway == node.gateway
            &&& gateway_path.len() > 0 ==> after.gateway == route_registered(
                node.gateway,
                Route {
                    creature_id: machine.owner().id,
                    path: gateway_path,
                    program_id: id,
                    entity_id: entity,
                    runtime: launch.entity_type,
                    pinned_vm_id: vm,
                },
                machine.owner().local_part,
            )
            &&& launch.program_id == id
            &&& launch.machine_id == program.machine_id@
            &&& launch.entity_id == entity
            &&& launch.vm_id == vm
            &&& launch.entity_type == crate::outside::lowercase_of(trimmed(entity_type))
            &&& launch.params == pairs(input.params@)
            &&& launch.resources == crate::program::billing::granted(input.resources)
        }),
{
    lemma_vm_keys(vm, program.id@, input.entity_id@);
    lemma_spread(node.vms.links, program.id@, input.entity_id@, vm, now);
}

/// The bill of an instance says which machine, entity and instance it is for, beside what its lock
/// pays.
pub proof fn law_a_bill_names_its_instance(
    record: Tree,
    machine: Seq<char>,
    entity: Seq<char>,
    vm: Seq<char>,
    key: Seq<char>,
)
    ensures
        ({
            let bill = instance_billing(record, machine, entity, vm);
            &&& bill.text("machineId"@) == Some(machine)
            &&& bill.text("entityId"@) == Some(entity)
            &&& bill.text("vmId"@) == Some(vm)
            &&& key != "machineId"@ && key != "entityId"@ && key != "vmId"@ ==> bill.field(key)
                == record.field(key)
        }),
{
    reveal_strlit("machineId");
    reveal_strlit("entityId");
    reveal_strlit("vmId");
    assert("machineId"@.len() == 9 && "entityId"@.len() == 8 && "vmId"@.len() == 4);
}

// ---------------------------------------------------------------- stopping

proof fn lemma_dropped_key<T>(rows: Rows<T>, gone: Seq<char>, key: Seq<char>)
    ensures
        lookup(dropped(rows, gone), key) == if key == gone {
            None
        } else {
            lookup(rows, key)
        },
{
    law_lookup_after_drop(rows, gone, key);
}

/// What stopping an instance leaves of any link: nothing of what names the instance or the image
/// and container of its entity, and everything else as it was.
pub open spec fn names_instance(
    program: Seq<char>,
    entity: Seq<char>,
    vm: Seq<char>,
    key: Seq<char>,
) -> bool {
    ||| key == "VmStatus::"@ + vm
    ||| key == "VmStartedAt::"@ + vm
    ||| key == "VmInstance::"@ + program + "::"@ + entity + "::"@ + vm
    ||| key == "VmBilling::"@ + vm
    ||| key == "vmStandaloneImageName::"@ + program + "::"@ + entity
    ||| key == "vmStandaloneContainerName::"@ + program + "::"@ + entity
}

/// A stopped instance leaves no link or bill behind, and everything else stays.
pub proof fn law_stopping_takes_what_names_the_instance(
    records: VmRecordsState,
    program: Seq<char>,
    entity: Seq<char>,
    vm: Seq<char>,
    key: Seq<char>,
)
    ensures
        lookup(stopped_records(records, program, entity, vm).links, key) == if names_instance(
            program,
            entity,
            vm,
            key,
        ) {
            None
        } else {
            lookup(records.links, key)
        },
        lookup(stopped_records(records, program, entity, vm).billing, key) == if key
            == "Json::VmBilling::"@ + vm {
            None
        } else {
            lookup(records.billing, key)
        },
{
    let a = "VmStatus::"@ + vm;
    let b = "VmStartedAt::"@ + vm;
    let c = "VmInstance::"@ + program + "::"@ + entity + "::"@ + vm;
    let d = "VmBilling::"@ + vm;
    let e = "vmStandaloneImageName::"@ + program + "::"@ + entity;
    let f = "vmStandaloneContainerName::"@ + program + "::"@ + entity;
    let l1 = dropped(records.links, a);
    let l2 = dropped(l1, b);
    let l3 = dropped(l2, c);
    let l4 = dropped(l3, d);
    let l5 = dropped(l4, e);
    lemma_dropped_key(records.links, a, key);
    lemma_dropped_key(l1, b, key);
    lemma_dropped_key(l2, c, key);
    lemma_dropped_key(l3, d, key);
    lemma_dropped_key(l4, e, key);
    lemma_dropped_key(l5, f, key);
    lemma_dropped_key(records.billing, "Json::VmBilling::"@ + vm, key);
}

/// An instance is stopped exactly where its program and entity exist, its owner asks, and there is
/// a monitor.
pub proof fn law_owners_stop_their_instances(
    records: VmRecordsState,
    input: RunProgramEntityInput,
    program: Option<ProgramRecord>,
    has_entity: bool,
    machine: Machines,
    caller: Seq<char>,
    has_vmm: bool,
)
    ensures
        (entity_stopped(records, input, program, has_entity, machine, caller, has_vmm) is Ok) == (
        program is Some && has_entity && machine.owner().owner_id == caller && has_vmm),
        entity_stopped(records, input, program, has_entity, machine, caller, has_vmm) matches Ok(
            after,
        ) ==> after == stopped_records(records, program->0.id@, input.entity_id@, input.vm_id@),
{
}

/// An instance is deleted exactly where its program and entity exist, its owner asks, it is one of
/// the entity, and the monitor destroyed it. What names it is then gone, and everything else stays.
pub proof fn law_owners_delete_their_instances(
    records: VmRecordsState,
    input: RunProgramEntityInput,
    program: Option<ProgramRecord>,
    has_entity: bool,
    machine: Machines,
    caller: Seq<char>,
    outcome: Destruction,
    key: Seq<char>,
)
    ensures
        ({
            let vm = trimmed(input.vm_id@);
            let id = program->0.id@;
            let entity = input.entity_id@;
            let r = entity_deleted(records, input, program, has_entity, machine, caller, outcome);
            &&& (r is Ok) == {
                &&& program is Some
                &&& has_entity
                &&& machine.owner().owner_id == caller
                &&& vm.len() > 0
                &&& lookup(
                    records.links,
                    "VmInstance::"@ + id + "::"@ + entity + "::"@ + vm,
                ) matches Some(text) && text.len() > 0
                &&& outcome is Done
            }
            &&& r matches Ok((after, deleted)) ==> {
                let gone = names_instance(id, entity, vm, key) || key == "vmDistributed::"@ + vm
                    || key == "VmOwnerProgram::"@ + vm || key == "VmContainerName::"@ + id + "::"@
                    + entity + "::"@ + vm;
                &&& deleted == vm
                &&& lookup(after.links, key) == if gone {
                    None
                } else {
                    lookup(records.links, key)
                }
                &&& lookup(after.billing, key) == if key == "Json::VmBilling::"@ + vm {
                    None
                } else {
                    lookup(records.billing, key)
                }
            }
        }),
{
    let vm = trimmed(input.vm_id@);
    let id = program->0.id@;
    let entity = input.entity_id@;
    law_stopping_takes_what_names_the_instance(records, id, entity, vm, key);
    let stopped = stopped_records(records, id, entity, vm).links;
    let one = dropped(stopped, "vmDistributed::"@ + vm);
    let two = dropped(one, "VmOwnerProgram::"@ + vm);
    lemma_dropped_key(stopped, "vmDistributed::"@ + vm, key);
    lemma_dropped_key(one, "VmOwnerProgram::"@ + vm, key);
    lemma_dropped_key(two, "VmContainerName::"@ + id + "::"@ + entity + "::"@ + vm, key);
}

/// A terminal is opened and closed exactly by the owner of an existing program, for themselves, and
/// no other link changes.
pub proof fn law_owners_open_and_close_terminals(
    links: Rows<Seq<char>>,
    input: VmTerminalInput,
    exists: bool,
    machine: Machines,
    caller: Seq<char>,
    open: bool,
    key: Seq<char>,
)
    ensures
        (terminal_set(links, input, exists, machine, caller, open) is Ok) == (exists
            && machine.owner().owner_id == caller),
        terminal_set(links, input, exists, machine, caller, open) matches Ok(after) ==> {
            let terminal = "VmTerminal::"@ + input.creature_id@ + "::"@ + input.vm_id@ + "::"@
                + caller;
            &&& open ==> lookup(after, terminal) == Some("true"@)
            &&& !open ==> lookup(after, terminal) is None
            &&& key != terminal ==> lookup(after, key) == lookup(links, key)
        },
{
    let terminal = "VmTerminal::"@ + input.creature_id@ + "::"@ + input.vm_id@ + "::"@ + caller;
    lemma_dropped_key(links, terminal, terminal);
    lemma_dropped_key(links, terminal, key);
}

/// The owner of a program is that of its recorded machine; where that has none, that of the one
/// machine that links to the program; and nobody otherwise.
pub proof fn law_a_program_belongs_to_its_machine(machines: Machines)
    ensures
        machines.recorded.owner_id.len() > 0 ==> machines.owner() == machines.recorded,
        machines.recorded.owner_id.len() == 0 && machines.linked.len() == 1
            && machines.linked[0].owner_id.len() > 0 ==> machines.owner() == machines.linked[0],
        machines.recorded.owner_id.len() == 0 && (machines.linked.len() != 1
            || machines.linked[0].owner_id.len() == 0) ==> machines.owner().owner_id.len() == 0
            && machines.owner().id.len() == 0,
{
}

} // verus!
