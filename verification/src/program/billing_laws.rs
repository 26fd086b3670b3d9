//! What running instances are charged, minute by minute.
use vstd::prelude::*;

use crate::json::{no_fields, Tree};
use crate::packets::program::VmResourcesInput;
use crate::program::billing::{
    all_due, billed_vm, billing_record, charge_request, due_of, first_fault, granted, minute_cost,
    round, settled_charge, vm_billing, without_prefixes, Billed, Due, VmRates, VmRecordsState,
    VmResources, resources_record, text_values,
};
use crate::program::instances::instance_billing;
use crate::table::{law_lookup_after_store, lookup};
use crate::text::has_prefix;

verus! {

broadcast use law_lookup_after_store;

proof fn lemma_field_names()
    ensures
        "payerUserId"@ != "currentStep"@,
        "stepCount"@ != "resources"@,
        "stepCount"@ != "machineId"@,
        "machineId"@ != "resources"@,
        "payerUserId"@.len() == 11,
        "currentStep"@.len() == 11,
        "lockId"@.len() == 6,
        "perMinuteCost"@.len() == 13,
        "stepCount"@.len() == 9,
        "lastChargeMinute"@.len() == 16,
        "signatures"@.len() == 10,
        "resources"@.len() == 9,
        "machineId"@.len() == 9,
        "entityId"@.len() == 8,
        "vmId"@.len() == 4,
{
    reveal_strlit("payerUserId");
    reveal_strlit("currentStep");
    reveal_strlit("lockId");
    reveal_strlit("perMinuteCost");
    reveal_strlit("stepCount");
    reveal_strlit("lastChargeMinute");
    reveal_strlit("signatures");
    reveal_strlit("resources");
    reveal_strlit("machineId");
    reveal_strlit("entityId");
    reveal_strlit("vmId");
    assert("payerUserId"@[0] == 'p' && "currentStep"@[0] == 'c');
    assert("stepCount"@[0] == 's' && "resources"@[0] == 'r' && "machineId"@[0] == 'm');
}

proof fn lemma_listed_instance(vm: Seq<char>)
    requires
        !has_prefix(vm, "VmBilling::"@),
    ensures
        billed_vm("VmBilling::"@ + vm) == vm,
        billed_vm(vm) == vm,
{
    reveal_strlit("VmBilling::");
    let link = "VmBilling::"@ + vm;
    assert(link.subrange(0, "VmBilling::"@.len() as int) =~= "VmBilling::"@);
    assert(has_prefix(link, "VmBilling::"@));
    assert(link.subrange("VmBilling::"@.len() as int, link.len() as int) =~= vm);
    reveal_with_fuel(without_prefixes, 3);
}

/// Whether an instance is listed as billed and its record names a payer, their lock, a price, a
/// machine and an entity.
pub open spec fn is_billed(vm: Billed, id: Seq<char>, record: Tree) -> bool {
    &&& id.len() > 0
    &&& !has_prefix(id, "VmBilling::"@)
    &&& vm.link == "VmBilling::"@ + id
    &&& vm.payment == Some(record)
    &&& record.text("payerUserId"@) matches Some(payer) && payer.len() > 0
    &&& record.text("lockId"@) matches Some(lock) && lock.len() > 0
    &&& record.text("machineId"@) matches Some(machine) && machine.len() > 0
    &&& record.text("entityId"@) matches Some(entity) && entity.len() > 0
    &&& record.number("perMinuteCost"@) matches Some(cost) && cost > 0
    &&& record.number("lastChargeMinute"@) is Some
    &&& record.number("currentStep"@) is Some
    &&& record.items("signatures"@) is Some
}

/// A running instance that was not charged this minute is charged its price for the step that it
/// stands at, with the signature for that step, whichever step that is, the first among them.
pub proof fn law_a_running_instance_is_charged_for_its_step(
    vm: Billed,
    id: Seq<char>,
    record: Tree,
    minute: int,
    step: int,
    signature: Seq<char>,
)
    requires
        is_billed(vm, id, record),
        vm.status == "running"@,
        record.number("lastChargeMinute"@)->0 != minute,
        record.number("currentStep"@)->0 == step,
        0 <= step < record.items("signatures"@)->0.len(),
        record.items("signatures"@)->0[step] == Tree::Text(signature),
    ensures
        due_of(vm, minute) == Some(
            (Due::Charge {
                vm_id: id,
                machine_id: record.text("machineId"@)->0,
                entity_id: record.text("entityId"@)->0,
                payer_user_id: record.text("payerUserId"@)->0,
                lock_id: record.text("lockId"@)->0,
                step,
                amount: record.number("perMinuteCost"@)->0 as int,
                signature,
            }),
        ),
{
    lemma_listed_instance(id);
}

/// A running instance for which no signature is left is stopped in the next minute.
pub proof fn law_an_instance_without_signatures_is_stopped(
    vm: Billed,
    id: Seq<char>,
    record: Tree,
    minute: int,
)
    requires
        is_billed(vm, id, record),
        vm.status == "running"@,
        record.number("lastChargeMinute"@)->0 < minute,
        record.number("currentStep"@)->0 >= record.items("signatures"@)->0.len(),
    ensures
        due_of(vm, minute) == Some(
            (Due::Stop {
                vm_id: id,
                machine_id: record.text("machineId"@)->0,
                entity_id: record.text("entityId"@)->0,
            }),
        ),
{
    lemma_listed_instance(id);
}

/// Nothing is done with an instance that does not run, or that was charged this minute, or whose
/// record is missing or lacks a payer, a lock, a price, a machine, an entity or a step; and
/// nothing is charged that is not signed for.
pub proof fn law_only_what_runs_and_is_signed_for_is_charged(vm: Billed, minute: int, due: Due)
    requires
        due_of(vm, minute) == Some(due),
    ensures
        vm.status == "running"@,
        vm.payment matches Some(record) && {
            &&& record.text("payerUserId"@) matches Some(payer) && payer.len() > 0
            &&& record.text("lockId"@) matches Some(lock) && lock.len() > 0
            &&& record.text("machineId"@) matches Some(machine) && machine.len() > 0
            &&& record.text("entityId"@) matches Some(entity) && entity.len() > 0
            &&& record.number("perMinuteCost"@) matches Some(cost) && cost > 0
            &&& record.number("lastChargeMinute"@) != Some(minute as i64) || minute < i64::MIN
                || minute > i64::MAX
            &&& record.number("currentStep"@) matches Some(step) && step >= 0 && match due {
                Due::Charge { payer_user_id, lock_id, step: taken, amount, signature, .. } => {
                    &&& taken == step
                    &&& Some(payer_user_id) == record.text("payerUserId"@)
                    &&& Some(lock_id) == record.text("lockId"@)
                    &&& Some(amount as i64) == record.number("perMinuteCost"@)
                    &&& amount > 0
                    &&& record.items("signatures"@) matches Some(list) && step < list.len() && (
                    list[step as int] matches Tree::Text(text) ==> signature == text)
                },
                Due::Stop { .. } => match record.items("signatures"@) {
                    Some(list) => step >= list.len(),
                    None => true,
                },
            }
        },
{
}

// ---------------------------------------------------------------- the lock that pays

/// Whether the steps of a lock pay for an instance: each is worth a minute, they come due a
/// minute apart, and the payer signed for each.
pub open spec fn steps_pay(steps: Seq<Tree>, cost: int, verified: Seq<bool>) -> bool {
    &&& verified.len() >= steps.len()
    &&& forall|i: int|
        0 <= i < steps.len() ==> {
            &&& (#[trigger] steps[i]) is Object
            &&& steps[i].number("amount"@) matches Some(amount) && amount == cost
            &&& steps[i].number("unlockAt"@) matches Some(at) && at > 0
            &&& i > 0 ==> steps[i].number("unlockAt"@)->0 == steps[i - 1].number("unlockAt"@)->0
                + 60_000
            &&& verified[i]
        }
}

/// What a minute costs: the sum over the resources at their rates, and at least one.
pub open spec fn price_of_minute(rates: VmRates, resources: VmResources) -> int {
    let sum = resources.ram_mb * rates.ram_per_mb + resources.cpu_cores * rates.per_cpu_core
        + resources.disk_gb * rates.disk_per_gb;
    if sum < 1 {
        1
    } else {
        sum
    }
}

/// A minute costs at least one, and otherwise what the resources cost together.
pub proof fn law_a_minute_costs_its_resources(rates: VmRates, resources: VmResources)
    ensures
        minute_cost(rates, resources) == price_of_minute(rates, resources),
{
}

/// A request for resources gets what it asks for, and where it asks for nothing a minute of one
/// core with sixty-four megabytes and one gigabyte.
pub proof fn law_resources_have_defaults(input: VmResourcesInput)
    ensures
        ({
            let r = granted(input);
            &&& input.max_exec_time_seconds > 0 ==> r.max_exec_time_seconds
                == input.max_exec_time_seconds
            &&& input.max_exec_time_seconds <= 0 ==> r.max_exec_time_seconds == 60
            &&& input.ram_mb > 0 ==> r.ram_mb == input.ram_mb
            &&& input.ram_mb <= 0 ==> r.ram_mb == 64
            &&& input.disk_gb > 0 ==> r.disk_gb == input.disk_gb
            &&& input.disk_gb <= 0 ==> r.disk_gb == 1
            &&& input.cpu_cores > 0 ==> r.cpu_cores == input.cpu_cores
            &&& input.cpu_cores <= 0 ==> r.cpu_cores == 1
        }),
{
}

proof fn lemma_no_fault(steps: Seq<Tree>, n: int, cost: int, verified: Seq<bool>)
    requires
        0 <= n <= steps.len(),
        cost >= 1,
    ensures
        (first_fault(steps, n, cost, verified) is None) == (verified.len() >= n && forall|i: int|
            0 <= i < n ==> {
                &&& (#[trigger] steps[i]) is Object
                &&& steps[i].number("amount"@) matches Some(amount) && amount == cost
                &&& steps[i].number("unlockAt"@) matches Some(at) && at > 0
                &&& i > 0 ==> steps[i].number("unlockAt"@)->0 == steps[i - 1].number(
                    "unlockAt"@,
                )->0 + 60_000
                &&& verified[i]
            }),
    decreases n,
{
    if n > 0 {
        lemma_no_fault(steps, n - 1, cost, verified);
        let last = steps[n - 1];
        if n > 1 {
            let before = steps[n - 2];
        }
    }
}

proof fn lemma_fresh_record(
    payer: Seq<char>,
    lock_id: Seq<char>,
    cost: int,
    count: int,
    signatures: Seq<Seq<char>>,
    resources: VmResources,
)
    ensures
        ({
            let record = billing_record(payer, lock_id, cost, count, signatures, resources);
            &&& record.text("payerUserId"@) == Some(payer)
            &&& record.text("lockId"@) == Some(lock_id)
            &&& record.number("perMinuteCost"@) == Some(cost as i64)
            &&& record.number("currentStep"@) == Some(0i64)
            &&& record.number("stepCount"@) == Some(count as i64)
            &&& record.number("lastChargeMinute"@) == Some(-1i64)
            &&& record.items("signatures"@) == Some(text_values(signatures))
        }),
{
    lemma_field_names();
    let a = no_fields().with("payerUserId"@, Tree::Text(payer)).with("lockId"@, Tree::Text(lock_id));
    let b = a.with("perMinuteCost"@, Tree::Whole(cost as i64)).with("currentStep"@, Tree::Whole(0));
    let c = b.with("stepCount"@, Tree::Whole(count as i64)).with(
        "lastChargeMinute"@,
        Tree::Whole(-1i64),
    );
    let d = c.with("signatures"@, Tree::Array(text_values(signatures)));
    let e = d.with("resources"@, resources_record(resources));
    assert(e == billing_record(payer, lock_id, cost, count, signatures, resources));
    assert(a.field("payerUserId"@) == Some(Tree::Text(payer)));
    assert(a.field("lockId"@) == Some(Tree::Text(lock_id)));
    assert(b.field("payerUserId"@) == a.field("payerUserId"@));
    assert(b.field("lockId"@) == a.field("lockId"@));
    assert(b.field("perMinuteCost"@) == Some(Tree::Whole(cost as i64)));
    assert(b.field("currentStep"@) == Some(Tree::Whole(0)));
    assert(c.field("payerUserId"@) == a.field("payerUserId"@));
    assert(c.field("lockId"@) == a.field("lockId"@));
    assert(c.field("perMinuteCost"@) == b.field("perMinuteCost"@));
    assert(c.field("currentStep"@) == b.field("currentStep"@));
}

/// A lock pays for an instance exactly where it is in favour of the node's owner and its steps
/// pay, one signature each. The record then names the payer, the lock and the price, and stands
/// before the first step.
pub proof fn law_locks_that_pay_are_taken(
    payment: Option<Tree>,
    node_owner: Seq<char>,
    payer: Seq<char>,
    lock_id: Seq<char>,
    signatures: Seq<Seq<char>>,
    verified: Seq<bool>,
    rates: VmRates,
    resources: VmResources,
)
    requires
        price_of_minute(rates, resources) <= i64::MAX,
    ensures
        ({
            let outcome = vm_billing(
                payment,
                node_owner,
                payer,
                lock_id,
                signatures,
                verified,
                rates,
                resources,
            );
            let cost = price_of_minute(rates, resources);
            &&& (outcome is Ok) == (lock_id.len() > 0 && (payment matches Some(lock)
                && lock.text_or_empty("userId"@) == node_owner && (lock.items(
                "steps"@,
            ) matches Some(steps) && steps.len() > 0 && signatures.len() == steps.len()
                && steps_pay(steps, cost, verified))))
            &&& outcome matches Ok(record) ==> {
                &&& record.text("payerUserId"@) == Some(payer)
                &&& record.text("lockId"@) == Some(lock_id)
                &&& record.number("perMinuteCost"@) == Some(cost as i64)
                &&& record.number("currentStep"@) == Some(0i64)
                &&& record.number("stepCount"@) == Some(signatures.len() as i64)
                &&& record.number("lastChargeMinute"@) == Some(-1i64)
                &&& record.items("signatures"@) matches Some(list) && list.len()
                    == signatures.len() && forall|i: int|
                    0 <= i < list.len() ==> #[trigger] list[i] == Tree::Text(signatures[i])
            }
        }),
{
    let cost = price_of_minute(rates, resources);
    if let Some(lock) = payment {
        if let Some(steps) = lock.items("steps"@) {
            lemma_fresh_record(payer, lock_id, cost, steps.len() as int, signatures, resources);
            lemma_no_fault(steps, steps.len() as int, cost, verified);
            if steps_pay(steps, cost, verified) {
                assert forall|i: int| 0 <= i < steps.len() implies {
                    &&& (#[trigger] steps[i]) is Object
                    &&& steps[i].number("amount"@) matches Some(amount) && amount == cost
                    &&& steps[i].number("unlockAt"@) matches Some(at) && at > 0
                    &&& i > 0 ==> steps[i].number("unlockAt"@)->0 == steps[i - 1].number(
                        "unlockAt"@,
                    )->0 + 60_000
                    &&& verified[i]
                } by {}
            }
        }
    }
}

proof fn lemma_instance_fields(record: Tree, machine: Seq<char>, entity: Seq<char>, id: Seq<char>)
    ensures
        ({
            let bill = instance_billing(record, machine, entity, id);
            &&& bill.text("machineId"@) == Some(machine)
            &&& bill.text("entityId"@) == Some(entity)
            &&& bill.text("vmId"@) == Some(id)
            &&& bill.field("payerUserId"@) == record.field("payerUserId"@)
            &&& bill.field("lockId"@) == record.field("lockId"@)
            &&& bill.field("perMinuteCost"@) == record.field("perMinuteCost"@)
            &&& bill.field("currentStep"@) == record.field("currentStep"@)
            &&& bill.field("lastChargeMinute"@) == record.field("lastChargeMinute"@)
            &&& bill.field("signatures"@) == record.field("signatures"@)
        }),
{
    lemma_field_names();
}

/// An instance whose lock was taken is charged its price for the first step, with the first
/// signature, in whichever minute comes first.
pub proof fn law_a_new_instance_is_charged_for_the_first_step(
    payment: Option<Tree>,
    node_owner: Seq<char>,
    payer: Seq<char>,
    lock_id: Seq<char>,
    signatures: Seq<Seq<char>>,
    verified: Seq<bool>,
    rates: VmRates,
    resources: VmResources,
    record: Tree,
    machine: Seq<char>,
    entity: Seq<char>,
    id: Seq<char>,
    minute: int,
)
    requires
        price_of_minute(rates, resources) <= i64::MAX,
        vm_billing(
            payment,
            node_owner,
            payer,
            lock_id,
            signatures,
            verified,
            rates,
            resources,
        ) == Ok::<Tree, Seq<char>>(record),
        payer.len() > 0,
        machine.len() > 0,
        entity.len() > 0,
        id.len() > 0,
        !has_prefix(id, "VmBilling::"@),
        minute >= 0,
    ensures
        due_of(
            Billed {
                link: "VmBilling::"@ + id,
                status: "running"@,
                payment: Some(instance_billing(record, machine, entity, id)),
            },
            minute,
        ) == Some(
            (Due::Charge {
                vm_id: id,
                machine_id: machine,
                entity_id: entity,
                payer_user_id: payer,
                lock_id,
                step: 0,
                amount: price_of_minute(rates, resources),
                signature: signatures[0],
            }),
        ),
{
    law_locks_that_pay_are_taken(
        payment,
        node_owner,
        payer,
        lock_id,
        signatures,
        verified,
        rates,
        resources,
    );
    let list = record.items("signatures"@)->0;
    assert(list[0] == Tree::Text(signatures[0]));
    lemma_instance_fields(record, machine, entity, id);
    let bill = instance_billing(record, machine, entity, id);
    let vm = Billed { link: "VmBilling::"@ + id, status: "running"@, payment: Some(bill) };
    law_a_running_instance_is_charged_for_its_step(vm, id, bill, minute, 0, signatures[0]);
}

// ---------------------------------------------------------------- a round

/// A round names every instance that is due, and none that is not.
pub proof fn law_a_round_names_every_due_instance(vms: Seq<Billed>, minute: int, due: Due)
    ensures
        all_due(vms, minute).contains(due) == exists|i: int|
            0 <= i < vms.len() && due_of(#[trigger] vms[i], minute) == Some(due),
    decreases vms.len(),
{
    if vms.len() > 0 {
        let front = vms.drop_last();
        law_a_round_names_every_due_instance(front, minute, due);
        let before = all_due(front, minute);
        let all = all_due(vms, minute);
        if all.contains(due) {
            let j = choose|j: int| 0 <= j < all.len() && all[j] == due;
            if j < before.len() {
                assert(before[j] == due);
                let i = choose|i: int|
                    0 <= i < front.len() && due_of(#[trigger] front[i], minute) == Some(due);
                assert(due_of(vms[i], minute) == Some(due));
            } else {
                assert(due_of(vms[vms.len() - 1], minute) == Some(due));
            }
        }
        if exists|i: int| 0 <= i < vms.len() && due_of(#[trigger] vms[i], minute) == Some(due) {
            let i = choose|i: int|
                0 <= i < vms.len() && due_of(#[trigger] vms[i], minute) == Some(due);
            if i < front.len() {
                assert(due_of(front[i], minute) == Some(due));
                let j = choose|j: int| 0 <= j < before.len() && before[j] == due;
                assert(all[j] == due);
            } else {
                assert(all[all.len() - 1] == due);
            }
        }
    }
}

/// A minute is handled once: in the same minute nothing is done, and in another one what is due
/// then.
pub proof fn law_a_minute_is_handled_once(vms: Seq<Billed>, last_minute: int, now: int)
    ensures
        60 * last_minute <= now < 60 * last_minute + 60 ==> round(vms, last_minute, now) is None,
        !(60 * last_minute <= now < 60 * last_minute + 60) ==> (round(
            vms,
            last_minute,
            now,
        ) matches Some((minute, dues)) && 60 * minute <= now < 60 * minute + 60 && dues == all_due(
            vms,
            minute,
        )),
{
}

// ---------------------------------------------------------------- after a charge

/// A charge asks the lock of the payer for the amount of its step, with the signature for it.
pub proof fn law_a_charge_asks_for_its_step(
    vm_id: Seq<char>,
    machine_id: Seq<char>,
    entity_id: Seq<char>,
    payer: Seq<char>,
    lock: Seq<char>,
    step: i64,
    amount: i64,
    signature: Seq<char>,
)
    ensures
        charge_request(Due::Stop { vm_id, machine_id, entity_id }) is None,
        charge_request(
            Due::Charge {
                vm_id,
                machine_id,
                entity_id,
                payer_user_id: payer,
                lock_id: lock,
                step: step as int,
                amount: amount as int,
                signature,
            },
        ) matches Some(request) && {
            &&& request.text("type"@) == Some("pay"@)
            &&& request.text("userId"@) == Some(payer)
            &&& request.text("lockId"@) == Some(lock)
            &&& request.text("signature"@) == Some(signature)
            &&& request.whole("amount"@) == Some(amount)
            &&& request.whole("step"@) == Some(step)
        },
{
    reveal_strlit("type");
    reveal_strlit("userId");
    reveal_strlit("lockId");
    reveal_strlit("signature");
    reveal_strlit("amount");
    reveal_strlit("step");
    assert("type"@.len() == 4 && "type"@[0] == 't');
    assert("userId"@.len() == 6 && "userId"@[0] == 'u');
    assert("lockId"@.len() == 6 && "lockId"@[0] == 'l');
    assert("signature"@.len() == 9);
    assert("amount"@.len() == 6 && "amount"@[0] == 'a');
    assert("step"@.len() == 4 && "step"@[0] == 's');
}

/// A charge that was paid moves the record of its instance to the next step and to the minute,
/// and leaves its other fields and every other instance alone; one that was not paid changes
/// nothing and stops its instance.
pub proof fn law_a_paid_charge_moves_its_record(
    records: VmRecordsState,
    vm_id: Seq<char>,
    due: Due,
    record: Tree,
    paid: bool,
    minute: i64,
    key: Seq<char>,
    other: Seq<char>,
)
    requires
        due matches Due::Charge { vm_id: of, .. } && of == vm_id,
        lookup(records.billing, "Json::VmBilling::"@ + vm_id) == Some(record),
        record.number("currentStep"@) matches Some(step) && step < i64::MAX,
    ensures
        ({
            let (after, stop) = settled_charge(records, due, paid, minute);
            &&& stop == !paid
            &&& !paid ==> after == records
            &&& after.links == records.links
            &&& other != "Json::VmBilling::"@ + vm_id ==> lookup(after.billing, other) == lookup(
                records.billing,
                other,
            )
            &&& paid ==> (lookup(after.billing, "Json::VmBilling::"@ + vm_id) matches Some(next)
                && {
                &&& next.whole("currentStep"@) == Some(
                    (record.number("currentStep"@)->0 + 1) as i64,
                )
                &&& next.whole("lastChargeMinute"@) == Some(minute)
                &&& key != "currentStep"@ && key != "lastChargeMinute"@ ==> next.field(key)
                    == record.field(key)
            })
        }),
{
    lemma_field_names();
}

} // verus!
