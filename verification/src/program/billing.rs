//! What instances cost, how their owners pay minute by minute, and what happens when they
//! do not.
use vstd::prelude::*;

use crate::clock::{is_moment, now_millis};
use crate::creature::locks::{figure, figure_of, lock_signing_text, signing_text};
use crate::json::{items_of, lemma_array, no_fields, object, Json, Tree};
use crate::outside::{json_bytes, json_encode};
use crate::packets::program::VmResourcesInput;
use crate::table::{
    dropped, law_lookup_after_drop, law_lookup_after_store, lookup, stored, Rows, Table,
};
use crate::text::{has_prefix, join2, join4, same, strip_prefix, texts};

verus! {

broadcast use {vstd::string::group_string_axioms, law_lookup_after_store};

// ---------------------------------------------------------------- resources and cost

/// What an instance gets.
pub struct VmResources {
    pub max_exec_time_seconds: i64,
    pub ram_mb: i64,
    pub disk_gb: i64,
    pub cpu_cores: i64,
}

/// `n`, or `default` where `n` asks for nothing.
pub open spec fn or_default(n: i64, default: i64) -> i64 {
    if n <= 0 {
        default
    } else {
        n
    }
}

/// The resources that a request gets.
pub open spec fn granted(input: VmResourcesInput) -> VmResources {
    VmResources {
        max_exec_time_seconds: or_default(input.max_exec_time_seconds, 60),
        ram_mb: or_default(input.ram_mb, 64),
        disk_gb: or_default(input.disk_gb, 1),
        cpu_cores: or_default(input.cpu_cores, 1),
    }
}

fn figure_or(n: i64, default: i64) -> (r: i64)
    ensures
        r == or_default(n, default),
{
    if n <= 0 {
        default
    } else {
        n
    }
}

/// Fill in the defaults of a request for resources.
pub fn normalize_vm_resources(input: &VmResourcesInput) -> (r: VmResources)
    ensures
        r == granted(*input),
{
    VmResources {
        max_exec_time_seconds: figure_or(input.max_exec_time_seconds, 60),
        ram_mb: figure_or(input.ram_mb, 64),
        disk_gb: figure_or(input.disk_gb, 1),
        cpu_cores: figure_or(input.cpu_cores, 1),
    }
}

/// What the node charges for a minute of each resource.
pub struct VmRates {
    pub ram_per_mb: i64,
    pub per_cpu_core: i64,
    pub disk_per_gb: i64,
}

/// What a minute of the resources adds up to.
pub open spec fn minute_sum(rates: VmRates, resources: VmResources) -> int {
    resources.ram_mb * rates.ram_per_mb + resources.cpu_cores * rates.per_cpu_core
        + resources.disk_gb * rates.disk_per_gb
}

/// Whether `n` fits in 64 bits.
pub open spec fn fits_i64(n: int) -> bool {
    i64::MIN <= n <= i64::MAX
}

/// Whether the price of a minute can be worked out in 64 bits.
pub open spec fn is_priced(rates: VmRates, resources: VmResources) -> bool {
    &&& fits_i64(resources.ram_mb * rates.ram_per_mb)
    &&& fits_i64(resources.cpu_cores * rates.per_cpu_core)
    &&& fits_i64(resources.disk_gb * rates.disk_per_gb)
    &&& fits_i64(
        resources.ram_mb * rates.ram_per_mb + resources.cpu_cores * rates.per_cpu_core,
    )
    &&& fits_i64(minute_sum(rates, resources))
}

/// The price of a minute: at least one.
pub open spec fn minute_cost(rates: VmRates, resources: VmResources) -> int {
    if minute_sum(rates, resources) <= 0 {
        1
    } else {
        minute_sum(rates, resources)
    }
}

/// The price of a minute of the resources.
pub fn vm_per_minute_cost(rates: &VmRates, resources: &VmResources) -> (r: i64)
    requires
        is_priced(*rates, *resources),
    ensures
        r == minute_cost(*rates, *resources),
        r >= 1,
{
    let ram: i64 = resources.ram_mb * rates.ram_per_mb;
    let cpu: i64 = resources.cpu_cores * rates.per_cpu_core;
    let disk: i64 = resources.disk_gb * rates.disk_per_gb;
    let cost: i64 = ram + cpu + disk;
    if cost <= 0 {
        1
    } else {
        cost
    }
}

/// Whether the node charges nothing at all.
pub open spec fn is_free(rates: VmRates) -> bool {
    rates.ram_per_mb == 0 && rates.per_cpu_core == 0 && rates.disk_per_gb == 0
}

/// Whether the node charges nothing at all, so that no payment lock is asked for.
pub fn vm_is_free(rates: &VmRates) -> (r: bool)
    ensures
        r == is_free(*rates),
{
    rates.ram_per_mb == 0 && rates.per_cpu_core == 0 && rates.disk_per_gb == 0
}

// ---------------------------------------------------------------- paying for an instance

/// Why step `i` of a payment lock does not pay for a minute.
pub open spec fn step_fault(steps: Seq<Tree>, i: int, cost: int, verified: Seq<bool>) -> Option<
    Seq<char>,
> {
    let step = steps[i];
    if !(step is Object) {
        Some("invalid payment lock step"@)
    } else if figure(step, "amount"@) != cost {
        Some("payment lock step amount must match vm per-minute resource cost"@)
    } else if figure(step, "unlockAt"@) <= 0 {
        Some("payment lock step unlockAt is invalid"@)
    } else if i > 0 && figure(step, "unlockAt"@) - figure(steps[i - 1], "unlockAt"@) != 60_000 {
        Some("payment lock steps must be one-minute apart"@)
    } else if !(i < verified.len() && verified[i]) {
        Some("payment signature verification failed"@)
    } else {
        None
    }
}

/// The first fault among the first `n` steps.
pub open spec fn first_fault(steps: Seq<Tree>, n: int, cost: int, verified: Seq<bool>) -> Option<
    Seq<char>,
>
    decreases n,
{
    if n <= 0 {
        None
    } else {
        match first_fault(steps, n - 1, cost, verified) {
            Some(e) => Some(e),
            None => step_fault(steps, n - 1, cost, verified),
        }
    }
}

/// The steps of a payment lock, where it has any.
pub open spec fn payment_steps(payment: Tree) -> Seq<Tree> {
    match payment.items("steps"@) {
        Some(steps) => steps,
        None => Seq::empty(),
    }
}

/// The record of the resources of an instance.
pub open spec fn resources_record(resources: VmResources) -> Tree {
    no_fields().with("maxExecTimeSeconds"@, Tree::Whole(resources.max_exec_time_seconds)).with(
        "ramMb"@,
        Tree::Whole(resources.ram_mb),
    ).with("diskGb"@, Tree::Whole(resources.disk_gb)).with(
        "cpuCores"@,
        Tree::Whole(resources.cpu_cores),
    )
}

/// A list of texts, as values.
pub open spec fn text_values(list: Seq<Seq<char>>) -> Seq<Tree> {
    list.map_values(|t: Seq<char>| Tree::Text(t))
}

/// The billing record of an instance that was not charged yet.
pub open spec fn billing_record(
    payer: Seq<char>,
    lock_id: Seq<char>,
    cost: int,
    step_count: int,
    signatures: Seq<Seq<char>>,
    resources: VmResources,
) -> Tree {
    no_fields().with("payerUserId"@, Tree::Text(payer)).with("lockId"@, Tree::Text(lock_id)).with(
        "perMinuteCost"@,
        Tree::Whole(cost as i64),
    ).with("currentStep"@, Tree::Whole(0)).with("stepCount"@, Tree::Whole(step_count as i64)).with(
        "lastChargeMinute"@,
        Tree::Whole(-1i64),
    ).with("signatures"@, Tree::Array(text_values(signatures))).with(
        "resources"@,
        resources_record(resources),
    )
}

/// The billing record that a payment lock stands for, or why it does not pay for the
/// resources. `verified[i]` is whether the payer's signature on the text of step `i` was
/// found good.
pub open spec fn vm_billing(
    payment: Option<Tree>,
    node_owner: Seq<char>,
    payer: Seq<char>,
    lock_id: Seq<char>,
    signatures: Seq<Seq<char>>,
    verified: Seq<bool>,
    rates: VmRates,
    resources: VmResources,
) -> Result<Tree, Seq<char>> {
    let cost = minute_cost(rates, resources);
    if lock_id.len() == 0 {
        Err("paymentLockId is required for standalone vm execution"@)
    } else {
        match payment {
            None => Err("payment lock not found"@),
            Some(lock) => {
                let steps = payment_steps(lock);
                if lock.text_or_empty("userId"@) != node_owner {
                    Err("payment lock target is invalid"@)
                } else if steps.len() == 0 {
                    Err("payment lock does not include steps"@)
                } else if signatures.len() != steps.len() {
                    Err("paymentSignatures count must match lock steps count"@)
                } else {
                    match first_fault(steps, steps.len() as int, cost, verified) {
                        Some(e) => Err(e),
                        None => Ok(
                            billing_record(
                                payer,
                                lock_id,
                                cost,
                                steps.len() as int,
                                signatures,
                                resources,
                            ),
                        ),
                    }
                }
            },
        }
    }
}

proof fn lemma_fault_stays(steps: Seq<Tree>, n: int, m: int, cost: int, verified: Seq<bool>)
    requires
        n <= m,
        first_fault(steps, n, cost, verified) is Some,
    ensures
        first_fault(steps, m, cost, verified) == first_fault(steps, n, cost, verified),
    decreases m - n,
{
    if n < m {
        lemma_fault_stays(steps, n, m - 1, cost, verified);
    }
}

/// The text that the payer of an instance signs for one step of the lock.
pub open spec fn billing_text(
    payment: Tree,
    lock_id: Seq<char>,
    i: int,
    node_owner: Seq<char>,
) -> Seq<char> {
    let step = payment_steps(payment)[i];
    signing_text(
        lock_id,
        i,
        figure(step, "unlockAt"@) as int,
        figure(step, "amount"@) as int,
        node_owner,
    )
}

/// The text that the payer of an instance signs for step `i` of the lock; none where the
/// lock has no such step.
pub fn billing_signing_text(payment: &Json, lock_id: &str, i: usize, node_owner: &str) -> (r:
    Option<String>)
    ensures
        match r {
            Some(text) => i < payment_steps(payment@).len() && text@ == billing_text(
                payment@,
                lock_id@,
                i as int,
                node_owner@,
            ),
            None => i >= payment_steps(payment@).len(),
        },
{
    match payment.items("steps") {
        Some(steps) => if i < steps.len() {
            assert(payment_steps(payment@)[i as int] == steps@[i as int]@);
            Some(
                lock_signing_text(
                    lock_id,
                    i,
                    figure_of(&steps[i], "unlockAt"),
                    figure_of(&steps[i], "amount"),
                    node_owner,
                ),
            )
        } else {
            None
        },
        None => None,
    }
}

fn values_of(list: &Vec<String>) -> (r: Json)
    ensures
        r@ == Tree::Array(text_values(texts(list@))),
{
    let mut out: Vec<Json> = Vec::new();
    let ghost goal = text_values(texts(list@));
    let mut i: usize = 0;
    while i < list.len()
        invariant
            i <= list@.len(),
            goal == text_values(texts(list@)),
            items_of(out@) == goal.subrange(0, i as int),
        decreases list.len() - i,
    {
        let ghost before = out@;
        out.push(Json::Text(list[i].clone()));
        assert(items_of(out@) =~= items_of(before).push(Tree::Text(list@[i as int]@)));
        assert(goal.subrange(0, i + 1) =~= goal.subrange(0, i as int).push(goal[i as int]));
        assert(goal[i as int] == Tree::Text(list@[i as int]@));
        i = i + 1;
    }
    proof {
        lemma_array(out);
    }
    assert(goal.subrange(0, goal.len() as int) =~= goal);
    Json::Array(out)
}

/// Work out the billing record of a new instance from the payment lock of its owner.
pub fn validate_and_build_vm_billing(
    payment: Option<&Json>,
    node_owner: &str,
    payer: &str,
    lock_id: &str,
    signatures: &Vec<String>,
    verified: &Vec<bool>,
    rates: &VmRates,
    resources: &VmResources,
) -> (r: Result<Json, String>)
    requires
        is_priced(*rates, *resources),
    ensures
        match r {
            Ok(record) => vm_billing(
                match payment {
                    Some(lock) => Some(lock@),
                    None => None,
                },
                node_owner@,
                payer@,
                lock_id@,
                texts(signatures@),
                verified@,
                *rates,
                *resources,
            ) == Ok::<Tree, Seq<char>>(record@),
            Err(e) => vm_billing(
                match payment {
                    Some(lock) => Some(lock@),
                    None => None,
                },
                node_owner@,
                payer@,
                lock_id@,
                texts(signatures@),
                verified@,
                *rates,
                *resources,
            ) == Err::<Tree, Seq<char>>(e@),
        },
{
    if lock_id.is_empty() {
        return Err("paymentLockId is required for standalone vm execution".to_owned());
    }
    let lock = match payment {
        Some(lock) => lock,
        None => {
            return Err("payment lock not found".to_owned());
        },
    };
    if !same(lock.text_or_empty("userId"), node_owner) {
        return Err("payment lock target is invalid".to_owned());
    }
    let steps = match lock.items("steps") {
        Some(steps) => steps,
        None => {
            return Err("payment lock does not include steps".to_owned());
        },
    };
    if steps.len() == 0 {
        return Err("payment lock does not include steps".to_owned());
    }
    if signatures.len() != steps.len() {
        return Err("paymentSignatures count must match lock steps count".to_owned());
    }
    let cost: i64 = vm_per_minute_cost(rates, resources);
    let ghost all = items_of(steps@);
    let mut i: usize = 0;
    while i < steps.len()
        invariant
            i <= steps@.len(),
            all == items_of(steps@),
            payment == Some(lock),
            payment_steps(lock@) == all,
            all.len() > 0,
            lock_id@.len() > 0,
            lock@.text_or_empty("userId"@) == node_owner@,
            signatures@.len() == all.len(),
            cost == minute_cost(*rates, *resources),
            first_fault(all, i as int, cost as int, verified@) is None,
        decreases steps.len() - i,
    {
        let step = &steps[i];
        assert(step@ == all[i as int]);
        let unlock: i64 = figure_of(step, "unlockAt");
        let previous: i64 = if i > 0 {
            assert(steps@[i - 1]@ == all[i - 1]);
            figure_of(&steps[i - 1], "unlockAt")
        } else {
            0
        };
        let fault: Option<&str> = if !step.is_object() {
            Some("invalid payment lock step")
        } else if figure_of(step, "amount") != cost {
            Some("payment lock step amount must match vm per-minute resource cost")
        } else if unlock <= 0 {
            Some("payment lock step unlockAt is invalid")
        } else if i > 0 && unlock as i128 - previous as i128 != 60_000 {
            Some("payment lock steps must be one-minute apart")
        } else if !(i < verified.len() && verified[i]) {
            Some("payment signature verification failed")
        } else {
            None
        };
        assert(step_fault(all, i as int, cost as int, verified@) == (match fault {
            Some(e) => Some(e@),
            None => None,
        }));
        match fault {
            Some(e) => {
                proof {
                    lemma_fault_stays(all, i + 1, all.len() as int, cost as int, verified@);
                }
                return Err(e.to_owned());
            },
            None => {},
        }
        i = i + 1;
    }
    let kept = object().with(
        "maxExecTimeSeconds",
        Json::Whole(resources.max_exec_time_seconds),
    ).with("ramMb", Json::Whole(resources.ram_mb)).with(
        "diskGb",
        Json::Whole(resources.disk_gb),
    ).with("cpuCores", Json::Whole(resources.cpu_cores));
    let count: i64 = steps.len() as i64;
    Ok(
        object().with("payerUserId", Json::Text(payer.to_owned())).with(
            "lockId",
            Json::Text(lock_id.to_owned()),
        ).with("perMinuteCost", Json::Whole(cost)).with("currentStep", Json::Whole(0)).with(
            "stepCount",
            Json::Whole(count),
        ).with("lastChargeMinute", Json::Whole(-1)).with("signatures", values_of(signatures)).with(
            "resources",
            kept,
        ),
    )
}

// ---------------------------------------------------------------- charging

/// What the node knows of an instance that is billed: the link that lists it, its status,
/// and its billing record.
pub struct BilledVm {
    pub link: String,
    pub status: String,
    pub payment: Option<Json>,
}

/// What is known of an instance that is billed, as texts.
pub struct Billed {
    pub link: Seq<char>,
    pub status: Seq<char>,
    pub payment: Option<Tree>,
}

impl View for BilledVm {
    type V = Billed;

    open spec fn view(&self) -> Billed {
        Billed {
            link: self.link@,
            status: self.status@,
            payment: match self.payment {
                Some(record) => Some(record@),
                None => None,
            },
        }
    }
}

/// What to do with an instance this minute.
pub enum ChargeTarget {
    /// No signature is left that pays for it.
    Stop { vm_id: String, machine_id: String, entity_id: String },
    /// The next step of its lock is due.
    Charge {
        vm_id: String,
        machine_id: String,
        entity_id: String,
        payer_user_id: String,
        lock_id: String,
        step: i64,
        amount: i64,
        signature: String,
    },
}

/// What to do with an instance this minute, as texts and numbers.
pub enum Due {
    Stop { vm_id: Seq<char>, machine_id: Seq<char>, entity_id: Seq<char> },
    Charge {
        vm_id: Seq<char>,
        machine_id: Seq<char>,
        entity_id: Seq<char>,
        payer_user_id: Seq<char>,
        lock_id: Seq<char>,
        step: int,
        amount: int,
        signature: Seq<char>,
    },
}

impl View for ChargeTarget {
    type V = Due;

    open spec fn view(&self) -> Due {
        match self {
            ChargeTarget::Stop { vm_id, machine_id, entity_id } => Due::Stop {
                vm_id: vm_id@,
                machine_id: machine_id@,
                entity_id: entity_id@,
            },
            ChargeTarget::Charge {
                vm_id,
                machine_id,
                entity_id,
                payer_user_id,
                lock_id,
                step,
                amount,
                signature,
            } => Due::Charge {
                vm_id: vm_id@,
                machine_id: machine_id@,
                entity_id: entity_id@,
                payer_user_id: payer_user_id@,
                lock_id: lock_id@,
                step: *step as int,
                amount: *amount as int,
                signature: signature@,
            },
        }
    }
}

/// `s` without the prefix, however often it stands there.
pub open spec fn without_prefixes(s: Seq<char>, prefix: Seq<char>) -> Seq<char>
    decreases s.len(),
{
    if prefix.len() > 0 && has_prefix(s, prefix) {
        without_prefixes(s.subrange(prefix.len() as int, s.len() as int), prefix)
    } else {
        s
    }
}

fn strip_prefixes<'a>(s: &'a str, prefix: &str) -> (r: &'a str)
    requires
        prefix@.len() > 0,
    ensures
        r@ == without_prefixes(s@, prefix@),
{
    let mut rest: &'a str = s;
    loop
        invariant
            prefix@.len() > 0,
            without_prefixes(rest@, prefix@) == without_prefixes(s@, prefix@),
        ensures
            rest@ == without_prefixes(s@, prefix@),
        decreases rest@.len(),
    {
        match strip_prefix(rest, prefix) {
            Some(shorter) => {
                rest = shorter;
            },
            None => {
                break;
            },
        }
    }
    rest
}

/// The instance that a link lists.
pub open spec fn billed_vm(link: Seq<char>) -> Seq<char> {
    without_prefixes(link, "VmBilling::"@)
}

/// The signatures in a billing record.
pub open spec fn billing_signatures(record: Tree) -> Seq<Tree> {
    match record.items("signatures"@) {
        Some(list) => list,
        None => Seq::empty(),
    }
}

/// The text of a value, or the empty text.
pub open spec fn plain_text(value: Tree) -> Seq<char> {
    match value {
        Tree::Text(text) => text,
        _ => Seq::empty(),
    }
}

/// What to do with an instance in a minute, if anything. It is charged at most once a
/// minute, and only while it runs.
pub open spec fn due_of(vm: Billed, minute: int) -> Option<Due> {
    let vm_id = billed_vm(vm.link);
    if vm_id.len() == 0 || vm.status != "running"@ {
        None
    } else {
        match vm.payment {
            None => None,
            Some(record) => match record.number("currentStep"@) {
                None => None,
                Some(step) => {
                    let payer = record.text_or_empty("payerUserId"@);
                    let lock = record.text_or_empty("lockId"@);
                    let cost = figure(record, "perMinuteCost"@);
                    let last = figure(record, "lastChargeMinute"@);
                    let machine = record.text_or_empty("machineId"@);
                    let entity = record.text_or_empty("entityId"@);
                    let signatures = billing_signatures(record);
                    if payer.len() == 0 || lock.len() == 0 || cost <= 0 || machine.len() == 0
                        || entity.len() == 0 || last == minute || step < 0 {
                        None
                    } else if step >= signatures.len() {
                        if last < minute {
                            Some(Due::Stop { vm_id, machine_id: machine, entity_id: entity })
                        } else {
                            None
                        }
                    } else {
                        Some(
                            Due::Charge {
                                vm_id,
                                machine_id: machine,
                                entity_id: entity,
                                payer_user_id: payer,
                                lock_id: lock,
                                step: step as int,
                                amount: cost as int,
                                signature: plain_text(signatures[step as int]),
                            },
                        )
                    }
                },
            },
        }
    }
}

/// What to do with the instances in a minute, in the order in which they are listed.
pub open spec fn all_due(vms: Seq<Billed>, minute: int) -> Seq<Due>
    decreases vms.len(),
{
    if vms.len() == 0 {
        Seq::empty()
    } else {
        let before = all_due(vms.drop_last(), minute);
        match due_of(vms.last(), minute) {
            Some(due) => before.push(due),
            None => before,
        }
    }
}

/// The instances of a list.
pub open spec fn billed_of(list: Seq<BilledVm>) -> Seq<Billed> {
    list.map_values(|v: BilledVm| v@)
}

/// The targets of a list.
pub open spec fn dues_of(list: Seq<ChargeTarget>) -> Seq<Due> {
    list.map_values(|t: ChargeTarget| t@)
}

fn text_value(value: &Json) -> (r: String)
    ensures
        r@ == plain_text(value@),
{
    match value {
        Json::Text(text) => text.clone(),
        _ => {
            let empty = String::new();
            assert(empty@ =~= Seq::<char>::empty());
            empty
        },
    }
}

fn target_of(vm: &BilledVm, minute: i64) -> (r: Option<ChargeTarget>)
    ensures
        match r {
            Some(target) => due_of(vm@, minute as int) == Some(target@),
            None => due_of(vm@, minute as int) is None,
        },
{
    proof {
        reveal_strlit("VmBilling::");
    }
    let vm_id = strip_prefixes(vm.link.as_str(), "VmBilling::");
    if vm_id.is_empty() || !same(vm.status.as_str(), "running") {
        return None;
    }
    let record = match &vm.payment {
        Some(record) => record,
        None => {
            return None;
        },
    };
    let step: i64 = match record.number("currentStep") {
        Some(step) => step,
        None => {
            return None;
        },
    };
    let payer = record.text_or_empty("payerUserId");
    let lock = record.text_or_empty("lockId");
    let cost: i64 = figure_of(record, "perMinuteCost");
    let last: i64 = figure_of(record, "lastChargeMinute");
    let machine = record.text_or_empty("machineId");
    let entity = record.text_or_empty("entityId");
    if payer.is_empty() || lock.is_empty() || cost <= 0 || machine.is_empty() || entity.is_empty()
        || last == minute || step < 0 {
        return None;
    }
    match record.items("signatures") {
        Some(list) => if (step as u64) < list.len() as u64 {
            let at: usize = step as usize;
            assert(billing_signatures(record@)[at as int] == list@[at as int]@);
            return Some(
                ChargeTarget::Charge {
                    vm_id: vm_id.to_owned(),
                    machine_id: machine.to_owned(),
                    entity_id: entity.to_owned(),
                    payer_user_id: payer.to_owned(),
                    lock_id: lock.to_owned(),
                    step,
                    amount: cost,
                    signature: text_value(&list[at]),
                },
            );
        },
        None => {},
    }
    if last < minute {
        Some(
            ChargeTarget::Stop {
                vm_id: vm_id.to_owned(),
                machine_id: machine.to_owned(),
                entity_id: entity.to_owned(),
            },
        )
    } else {
        None
    }
}

/// What to do in the minute of `now`, in seconds since the epoch; nothing where that minute
/// was handled before.
pub open spec fn round(vms: Seq<Billed>, last_minute: int, now: int) -> Option<(int, Seq<Due>)> {
    if last_minute == now / 60 {
        None
    } else {
        Some((now / 60, all_due(vms, now / 60)))
    }
}

/// Which running instances to charge or stop in the current minute. A minute that was
/// handled before is not handled again.
pub fn charge_running_standalone_vms_if_needed(
    vms: &Vec<BilledVm>,
    last_minute: i64,
    now: i64,
) -> (r: Option<(i64, Vec<ChargeTarget>)>)
    requires
        now >= 0,
    ensures
        match r {
            Some((minute, targets)) => round(billed_of(vms@), last_minute as int, now as int)
                == Some((minute as int, dues_of(targets@))),
            None => round(billed_of(vms@), last_minute as int, now as int) is None,
        },
{
    let minute: i64 = now / 60;
    if last_minute == minute {
        return None;
    }
    let ghost all = billed_of(vms@);
    let mut out: Vec<ChargeTarget> = Vec::new();
    assert(dues_of(out@) =~= Seq::empty());
    assert(all.subrange(0, 0) =~= Seq::empty());
    let mut i: usize = 0;
    while i < vms.len()
        invariant
            i <= vms@.len(),
            all == billed_of(vms@),
            dues_of(out@) == all_due(all.subrange(0, i as int), minute as int),
        decreases vms.len() - i,
    {
        let ghost upto = all.subrange(0, i + 1);
        assert(upto.drop_last() =~= all.subrange(0, i as int));
        assert(upto.last() == vms@[i as int]@);
        let ghost before = out@;
        match target_of(&vms[i], minute) {
            Some(target) => {
                out.push(target);
                assert(dues_of(out@) =~= dues_of(before).push(target@));
            },
            None => {},
        }
        i = i + 1;
    }
    assert(all.subrange(0, all.len() as int) =~= all);
    Some((minute, out))
}

/// Work out what to do with the instances that are billed, at the minute that the clock
/// shows.
pub fn charge_running_standalone_vms(vms: &Vec<BilledVm>, last_minute: i64) -> (r: Option<
    (i64, Vec<ChargeTarget>),
>)
    ensures
        exists|now: int| #[trigger]
            is_moment(now) && match r {
                Some((minute, targets)) => round(billed_of(vms@), last_minute as int, now) == Some(
                    (minute as int, dues_of(targets@)),
                ),
                None => round(billed_of(vms@), last_minute as int, now) is None,
            },
{
    let now: i64 = now_millis() / 1000;
    let r = charge_running_standalone_vms_if_needed(vms, last_minute, now);
    assert(is_moment(now as int));
    r
}

/// The request that takes the step of a charge from the payer's lock.
pub open spec fn charge_request(due: Due) -> Option<Tree> {
    match due {
        Due::Stop { .. } => None,
        Due::Charge { payer_user_id, lock_id, step, amount, signature, .. } => Some(
            no_fields().with("type"@, Tree::Text("pay"@)).with(
                "userId"@,
                Tree::Text(payer_user_id),
            ).with("lockId"@, Tree::Text(lock_id)).with("signature"@, Tree::Text(signature)).with(
                "amount"@,
                Tree::Whole(amount as i64),
            ).with("step"@, Tree::Whole(step as i64)),
        ),
    }
}

/// The request that takes the step of a charge; a stop takes none.
pub fn charge_payload(target: &ChargeTarget) -> (r: Option<Json>)
    ensures
        match r {
            Some(request) => charge_request(target@) == Some(request@),
            None => charge_request(target@) is None,
        },
{
    match target {
        ChargeTarget::Stop { .. } => None,
        ChargeTarget::Charge { payer_user_id, lock_id, step, amount, signature, .. } => Some(
            object().with("type", Json::Text("pay".to_owned())).with(
                "userId",
                Json::Text(payer_user_id.clone()),
            ).with("lockId", Json::Text(lock_id.clone())).with(
                "signature",
                Json::Text(signature.clone()),
            ).with("amount", Json::Whole(*amount)).with("step", Json::Whole(*step)),
        ),
    }
}

/// The bytes of the request that takes the step of a charge, as they are signed and sent; a
/// stop takes none.
pub fn charge_packet(target: &ChargeTarget) -> (r: Option<Vec<u8>>)
    ensures
        match r {
            Some(bytes) => charge_request(target@) matches Some(request) && bytes@ == json_bytes(
                request,
            ),
            None => charge_request(target@) is None,
        },
{
    match charge_payload(target) {
        Some(request) => Some(json_encode(&request)),
        None => None,
    }
}

/// The links and billing records of the node's instances.
pub struct VmRecords {
    pub links: Table<String>,
    pub billing: Table<Json>,
}

/// The records of the node's instances, as texts.
pub struct VmRecordsState {
    pub links: Rows<Seq<char>>,
    pub billing: Rows<Tree>,
}

impl View for VmRecords {
    type V = VmRecordsState;

    open spec fn view(&self) -> VmRecordsState {
        VmRecordsState { links: self.links@, billing: self.billing@ }
    }
}

/// The key of an instance's status.
pub open spec fn status_key(vm: Seq<char>) -> Seq<char> {
    "VmStatus::"@ + vm
}

/// The key that lists an instance of an entity.
pub open spec fn instance_key(program: Seq<char>, entity: Seq<char>, vm: Seq<char>) -> Seq<char> {
    "VmInstance::"@ + program + "::"@ + entity + "::"@ + vm
}

/// The key that lists an instance as billed.
pub open spec fn billing_key(vm: Seq<char>) -> Seq<char> {
    "VmBilling::"@ + vm
}

/// The key of an instance's billing record.
pub open spec fn payment_key(vm: Seq<char>) -> Seq<char> {
    "Json::VmBilling::"@ + vm
}

/// The key that lists an instance of an entity.
pub fn instance_key_of(program: &str, entity: &str, vm: &str) -> (r: String)
    ensures
        r@ == instance_key(program@, entity@, vm@),
{
    let head = join4("VmInstance::", program, "::", entity);
    crate::text::join3(head.as_str(), "::", vm)
}

/// A billing record after one more step was taken in a minute.
pub open spec fn charged_record(record: Option<Tree>, minute: i64) -> Tree {
    let payment = match record {
        Some(payment) => payment,
        None => no_fields(),
    };
    payment.with("currentStep"@, Tree::Whole((figure(payment, "currentStep"@) + 1) as i64)).with(
        "lastChargeMinute"@,
        Tree::Whole(minute),
    )
}

/// The step that a billing record stands at.
pub open spec fn step_of(record: Option<Tree>) -> i64 {
    match record {
        Some(payment) => figure(payment, "currentStep"@),
        None => 0,
    }
}

/// The records after a target was dealt with, and whether its instance is to be stopped.
/// `paid` is whether the payer's lock gave the step.
pub open spec fn settled_charge(
    records: VmRecordsState,
    due: Due,
    paid: bool,
    minute: i64,
) -> (VmRecordsState, bool) {
    match due {
        Due::Stop { vm_id, machine_id, entity_id } => (
            VmRecordsState {
                links: dropped(
                    dropped(
                        dropped(records.links, status_key(vm_id)),
                        instance_key(machine_id, entity_id, vm_id),
                    ),
                    billing_key(vm_id),
                ),
                billing: dropped(records.billing, payment_key(vm_id)),
            },
            true,
        ),
        Due::Charge { vm_id, .. } => if paid {
            (
                VmRecordsState {
                    billing: stored(
                        records.billing,
                        payment_key(vm_id),
                        charged_record(lookup(records.billing, payment_key(vm_id)), minute),
                    ),
                    ..records
                },
                false,
            )
        } else {
            (records, true)
        },
    }
}

/// Deal with a target once its payment is known: record the step that was paid, or say
/// that the instance is to be stopped. An instance without further signatures is forgotten.
pub fn settle_charge(
    records: &mut VmRecords,
    target: &ChargeTarget,
    paid: bool,
    minute: i64,
) -> (stop: bool)
    requires
        target@ matches Due::Charge { vm_id, .. } ==> step_of(
            lookup(old(records)@.billing, payment_key(vm_id)),
        ) < i64::MAX,
    ensures
        settled_charge(old(records)@, target@, paid, minute) == (final(records)@, stop),
{
    match target {
        ChargeTarget::Stop { vm_id, machine_id, entity_id } => {
            let status = join2("VmStatus::", vm_id.as_str());
            let instance = instance_key_of(
                machine_id.as_str(),
                entity_id.as_str(),
                vm_id.as_str(),
            );
            let listed = join2("VmBilling::", vm_id.as_str());
            let payment = join2("Json::VmBilling::", vm_id.as_str());
            records.links.remove(status.as_str());
            records.links.remove(instance.as_str());
            records.links.remove(listed.as_str());
            records.billing.remove(payment.as_str());
            true
        },
        ChargeTarget::Charge { vm_id, .. } => {
            if !paid {
                return true;
            }
            let key = join2("Json::VmBilling::", vm_id.as_str());
            let payment: Json = match records.billing.get(key.as_str()) {
                Some(record) => record.copy(),
                None => object(),
            };
            proof {
                if lookup(records@.billing, key@) is None {
                    reveal_strlit("currentStep");
                    assert(no_fields().field("currentStep"@) is None);
                }
            }
            let step: i64 = figure_of(&payment, "currentStep");
            let next = payment.with("currentStep", Json::Whole(step + 1)).with(
                "lastChargeMinute",
                Json::Whole(minute),
            );
            records.billing.put(key.as_str(), next);
            false
        },
    }
}

// ---------------------------------------------------------------- laws

proof fn lemma_after_charge(record: Tree, minute: i64)
    requires
        figure(record, "currentStep"@) < i64::MAX,
    ensures
        figure(charged_record(Some(record), minute), "lastChargeMinute"@) == minute,
        figure(charged_record(Some(record), minute), "currentStep"@) == figure(
            record,
            "currentStep"@,
        ) + 1,
        charged_record(Some(record), minute).number("currentStep"@) is Some,
{
    reveal_strlit("currentStep");
    reveal_strlit("lastChargeMinute");
    assert("currentStep"@.len() != "lastChargeMinute"@.len());
}

/// An instance that was charged in a minute is left alone for the rest of it.
pub proof fn law_charged_once_a_minute(vm: Billed, record: Tree, minute: i64)
    requires
        vm.payment == Some(charged_record(Some(record), minute)),
        figure(record, "currentStep"@) < i64::MAX,
    ensures
        due_of(vm, minute as int) is None,
{
    lemma_after_charge(record, minute);
}

/// Steps are taken in order: the charge after one that was paid is for the next step.
pub proof fn law_charges_take_the_next_step(
    vm: Billed,
    record: Tree,
    minute: i64,
    later: int,
    due: Due,
)
    requires
        figure(record, "currentStep"@) < i64::MAX,
        vm.payment == Some(charged_record(Some(record), minute)),
        due_of(vm, later) == Some(due),
    ensures
        due matches Due::Charge { step, .. } ==> step == figure(record, "currentStep"@) + 1,
{
    lemma_after_charge(record, minute);
}

/// An instance that was stopped for want of signatures is neither listed as billed nor
/// recorded as running.
pub proof fn law_a_stopped_instance_is_forgotten(
    records: VmRecordsState,
    vm_id: Seq<char>,
    machine_id: Seq<char>,
    entity_id: Seq<char>,
    paid: bool,
    minute: i64,
)
    ensures
        ({
            let (after, stop) = settled_charge(
                records,
                Due::Stop { vm_id, machine_id, entity_id },
                paid,
                minute,
            );
            &&& stop
            &&& lookup(after.links, status_key(vm_id)) is None
            &&& lookup(after.links, billing_key(vm_id)) is None
            &&& lookup(after.links, instance_key(machine_id, entity_id, vm_id)) is None
            &&& lookup(after.billing, payment_key(vm_id)) is None
        }),
{
    let status = status_key(vm_id);
    let instance = instance_key(machine_id, entity_id, vm_id);
    let billing = billing_key(vm_id);
    let one = dropped(records.links, status);
    let two = dropped(one, instance);
    law_lookup_after_drop(records.links, status, status);
    law_lookup_after_drop(one, instance, status);
    law_lookup_after_drop(two, billing, status);
    law_lookup_after_drop(one, instance, instance);
    law_lookup_after_drop(two, billing, instance);
    law_lookup_after_drop(two, billing, billing);
    law_lookup_after_drop(records.billing, payment_key(vm_id), payment_key(vm_id));
}

} // verus!
