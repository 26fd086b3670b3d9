//! What the node tells of programs, their entities, and their instances.
use vstd::prelude::*;

use crate::creature::directory::{Creature, Creatures, CreaturesState};
use crate::decimal::{parse_i64, read_i64};
use crate::json::{items_of, no_fields, object, read_as, Json, Tree};
use crate::outside::{base64_encode, base64_text, json_read, parsed_json};
use crate::packets::program::{DownloadEntityInput, ReadVmLogsInput};
use crate::program::deploy::{entity_type_of, normalize_entity_type, ProgramRecord};
use crate::program::instances::{named_program, requested_program};
use crate::program::machines::{resolve_program_owner_machine, Machines, ProgramMachines};
use crate::table::{law_lookup_after_store, lookup, Rows};
use crate::text::{
    has_prefix, has_suffix, join2, join4, pieces, same, split, strip_prefix, strip_suffix, texts,
};

verus! {

broadcast use {vstd::string::group_string_axioms, law_lookup_after_store};

// ---------------------------------------------------------------- instances of an entity

/// What is known of an instance before it is shown: the link that lists it, its recorded
/// status, the text of its start time, and what the virtual machine monitor answered.
pub struct VmProbe {
    pub link: String,
    pub recorded_status: String,
    pub started_at: String,
    pub answer: String,
}

/// An instance as it is shown.
pub struct VmInstance {
    pub vm_id: String,
    pub status: String,
    pub running: bool,
    pub recorded_status: String,
    pub started_at: i64,
    pub detail: Json,
}

/// What is known of an instance, as texts.
pub struct Probe {
    pub link: Seq<char>,
    pub recorded_status: Seq<char>,
    pub started_at: Seq<char>,
    pub answer: Seq<char>,
}

/// An instance as it is shown, as texts.
pub struct Shown {
    pub vm_id: Seq<char>,
    pub status: Seq<char>,
    pub running: bool,
    pub recorded_status: Seq<char>,
    pub started_at: i64,
    pub detail: Tree,
}

impl View for VmProbe {
    type V = Probe;

    open spec fn view(&self) -> Probe {
        Probe {
            link: self.link@,
            recorded_status: self.recorded_status@,
            started_at: self.started_at@,
            answer: self.answer@,
        }
    }
}

impl View for VmInstance {
    type V = Shown;

    open spec fn view(&self) -> Shown {
        Shown {
            vm_id: self.vm_id@,
            status: self.status@,
            running: self.running,
            recorded_status: self.recorded_status@,
            started_at: self.started_at,
            detail: self.detail@,
        }
    }
}

/// The prefix of the links that list the instances of an entity.
pub open spec fn instances_prefix(program: Seq<char>, entity: Seq<char>) -> Seq<char> {
    "VmInstance::"@ + program + "::"@ + entity + "::"@
}

/// The text without a prefix, where it has it.
pub open spec fn past_prefix(s: Seq<char>, prefix: Seq<char>) -> Seq<char> {
    if has_prefix(s, prefix) {
        s.subrange(prefix.len() as int, s.len() as int)
    } else {
        s
    }
}

fn after_prefix<'a>(s: &'a str, prefix: &str) -> (r: &'a str)
    ensures
        r@ == past_prefix(s@, prefix@),
{
    match strip_prefix(s, prefix) {
        Some(rest) => rest,
        None => s,
    }
}

/// The answer of the monitor, where it is no complaint.
pub open spec fn good_answer(answer: Result<Tree, Seq<char>>) -> Result<Tree, Seq<char>> {
    match answer {
        Err(e) => Err(e),
        Ok(value) => if value.field("ok"@) == Some(Tree::Bool(false)) {
            match value.text("error"@) {
                Some(e) => Err(e),
                None => Err("unknown"@),
            }
        } else {
            Ok(value)
        },
    }
}

/// An instance as it is shown; the monitor's answer is a text.
pub open spec fn shown_vm(vm: Seq<char>, probe: Probe) -> Shown {
    shown_answer(vm, probe, parsed_json(probe.answer))
}

/// An instance as it is shown; `answer` is what the monitor's answer was read as.
pub open spec fn shown_answer(
    vm: Seq<char>,
    probe: Probe,
    answer: Result<Tree, Seq<char>>,
) -> Shown {
    let started_at = match read_i64(probe.started_at) {
        Some(n) => n,
        None => 0,
    };
    match good_answer(answer) {
        Ok(value) => {
            let status = match value.text("status"@) {
                Some(text) => text,
                None => "unknown"@,
            };
            let running = match value.field("running"@) {
                Some(Tree::Bool(b)) => b,
                _ => status == "running"@,
            };
            Shown {
                vm_id: vm,
                status,
                running,
                recorded_status: probe.recorded_status,
                started_at,
                detail: value,
            }
        },
        Err(e) => Shown {
            vm_id: vm,
            status: if probe.recorded_status.len() == 0 {
                "stopped"@
            } else {
                "unknown"@
            },
            running: false,
            recorded_status: probe.recorded_status,
            started_at,
            detail: no_fields().with("error"@, Tree::Text(e)),
        },
    }
}

/// How many instances at the head of a list were started at `started_at` or later.
pub open spec fn newer(list: Seq<Shown>, started_at: i64) -> int
    decreases list.len(),
{
    if list.len() == 0 || list[0].started_at < started_at {
        0
    } else {
        1 + newer(list.subrange(1, list.len() as int), started_at)
    }
}

/// The list with one more instance, after those that are as new.
pub open spec fn placed(list: Seq<Shown>, one: Shown) -> Seq<Shown> {
    list.insert(newer(list, one.started_at), one)
}

/// The instances of the probes, the newest first; those of the same time keep their order.
pub open spec fn newest_first(prefix: Seq<char>, probes: Seq<Probe>) -> Seq<Shown>
    decreases probes.len(),
{
    if probes.len() == 0 {
        Seq::empty()
    } else {
        let before = newest_first(prefix, probes.drop_last());
        let vm = past_prefix(probes.last().link, prefix);
        if vm.len() == 0 {
            before
        } else {
            placed(before, shown_vm(vm, probes.last()))
        }
    }
}

/// The probes of a list.
pub open spec fn probes_of(list: Seq<VmProbe>) -> Seq<Probe> {
    list.map_values(|p: VmProbe| p@)
}

/// The instances of a list.
pub open spec fn shown_of(list: Seq<VmInstance>) -> Seq<Shown> {
    list.map_values(|v: VmInstance| v@)
}

/// Show an instance.
pub fn show_vm(vm: &str, probe: &VmProbe) -> (r: VmInstance)
    ensures
        r@ == shown_vm(vm@, probe@),
{
    show_answer(vm, probe, &json_read(probe.answer.as_str()))
}

/// Show an instance whose monitor's answer was read.
pub fn show_answer(vm: &str, probe: &VmProbe, answer: &Result<Json, String>) -> (r: VmInstance)
    ensures
        r@ == shown_answer(vm@, probe@, read_as(*answer)),
{
    let started_at: i64 = match parse_i64(probe.started_at.as_str()) {
        Some(n) => n,
        None => 0,
    };
    let fault: String = match answer {
        Err(e) => e.clone(),
        Ok(value) => {
            let refused: bool = match value.field("ok") {
                Some(Json::Bool(b)) => !*b,
                _ => false,
            };
            if !refused {
                let status: String = match value.text("status") {
                    Some(text) => text.to_owned(),
                    None => "unknown".to_owned(),
                };
                let running: bool = match value.field("running") {
                    Some(Json::Bool(b)) => *b,
                    _ => same(status.as_str(), "running"),
                };
                return VmInstance {
                    vm_id: vm.to_owned(),
                    status,
                    running,
                    recorded_status: probe.recorded_status.clone(),
                    started_at,
                    detail: value.copy(),
                };
            }
            match value.text("error") {
                Some(e) => e.to_owned(),
                None => "unknown".to_owned(),
            }
        },
    };
    let status: String = if probe.recorded_status.as_str().is_empty() {
        "stopped".to_owned()
    } else {
        "unknown".to_owned()
    };
    VmInstance {
        vm_id: vm.to_owned(),
        status,
        running: false,
        recorded_status: probe.recorded_status.clone(),
        started_at,
        detail: object().with("error", Json::Text(fault)),
    }
}

proof fn lemma_newer(list: Seq<Shown>, started_at: i64, i: int)
    requires
        0 <= i <= list.len(),
        forall|j: int| 0 <= j < i ==> (#[trigger] list[j]).started_at >= started_at,
        i < list.len() ==> list[i].started_at < started_at,
    ensures
        newer(list, started_at) == i,
    decreases i,
{
    if i > 0 {
        let rest = list.subrange(1, list.len() as int);
        assert forall|j: int| 0 <= j < i - 1 implies (#[trigger] rest[j]).started_at
            >= started_at by {
            assert(rest[j] == list[j + 1]);
        }
        assert(list[0].started_at >= started_at);
        lemma_newer(rest, started_at, i - 1);
    }
}

fn place(list: &mut Vec<VmInstance>, one: VmInstance)
    ensures
        shown_of(final(list)@) == placed(shown_of(old(list)@), one@),
{
    let ghost all = shown_of(list@);
    let mut i: usize = 0;
    while i < list.len() && list[i].started_at >= one.started_at
        invariant
            i <= list@.len(),
            all == shown_of(list@),
            forall|j: int| 0 <= j < i ==> (#[trigger] all[j]).started_at >= one.started_at,
        decreases list.len() - i,
    {
        assert(all[i as int] == list@[i as int]@);
        i = i + 1;
    }
    proof {
        if i < list@.len() {
            assert(all[i as int] == list@[i as int]@);
        }
        lemma_newer(all, one.started_at, i as int);
    }
    let ghost before = list@;
    let ghost added = one@;
    list.insert(i, one);
    assert(shown_of(list@) =~= all.insert(i as int, added));
}

/// Why a caller may not see the instances of an entity. Who may see them is asked before
/// whether the entity exists.
pub open spec fn listing_refusal(
    exists: bool,
    machine: Machines,
    caller: Seq<char>,
    has_entity: bool,
    has_vmm: bool,
) -> Option<Seq<char>> {
    if !exists {
        Some("program does not exist"@)
    } else if machine.owner().owner_id != caller {
        Some("you are not owner of this program"@)
    } else if !has_entity {
        Some("entity does not exist"@)
    } else if !has_vmm {
        Some("this node has no VMM (ASEMAN_VMM_ENDPOINT)"@)
    } else {
        None
    }
}

/// Whether a caller may see the instances of an entity.
pub fn refuse_listing(
    exists: bool,
    machine: &ProgramMachines,
    caller: &str,
    has_entity: bool,
    has_vmm: bool,
) -> (r: Option<String>)
    ensures
        match r {
            Some(e) => listing_refusal(exists, machine@, caller@, has_entity, has_vmm) == Some(e@),
            None => listing_refusal(exists, machine@, caller@, has_entity, has_vmm) is None,
        },
{
    if !exists {
        return Some("program does not exist".to_owned());
    }
    let owner = resolve_program_owner_machine(&machine.recorded, &machine.linked);
    if !same(owner.owner_id.as_str(), caller) {
        return Some("you are not owner of this program".to_owned());
    }
    if !has_entity {
        return Some("entity does not exist".to_owned());
    }
    if !has_vmm {
        return Some("this node has no VMM (ASEMAN_VMM_ENDPOINT)".to_owned());
    }
    None
}

/// The instances of an entity, the newest first.
pub fn list_entity_vms(program: &str, entity: &str, probes: &Vec<VmProbe>) -> (r: Vec<VmInstance>)
    ensures
        shown_of(r@) == newest_first(instances_prefix(program@, entity@), probes_of(probes@)),
{
    let head = join4("VmInstance::", program, "::", entity);
    let prefix = join2(head.as_str(), "::");
    let ghost all = probes_of(probes@);
    let mut out: Vec<VmInstance> = Vec::new();
    assert(shown_of(out@) =~= Seq::empty());
    assert(all.subrange(0, 0) =~= Seq::empty());
    let mut i: usize = 0;
    while i < probes.len()
        invariant
            i <= probes@.len(),
            all == probes_of(probes@),
            prefix@ == instances_prefix(program@, entity@),
            shown_of(out@) == newest_first(prefix@, all.subrange(0, i as int)),
        decreases probes.len() - i,
    {
        let ghost upto = all.subrange(0, i + 1);
        assert(upto.drop_last() =~= all.subrange(0, i as int));
        assert(upto.last() == probes@[i as int]@);
        let vm = after_prefix(probes[i].link.as_str(), prefix.as_str());
        if !vm.is_empty() {
            let one = show_vm(vm, &probes[i]);
            place(&mut out, one);
        }
        i = i + 1;
    }
    assert(all.subrange(0, all.len() as int) =~= all);
    out
}

/// Whether a list of instances begins with the newest.
pub open spec fn is_newest_first(list: Seq<Shown>) -> bool {
    forall|i: int, j: int|
        0 <= i <= j < list.len() ==> (#[trigger] list[i]).started_at >= (
        #[trigger] list[j]).started_at
}

proof fn lemma_newer_bounds(list: Seq<Shown>, started_at: i64)
    ensures
        0 <= newer(list, started_at) <= list.len(),
        forall|j: int|
            0 <= j < newer(list, started_at) ==> (#[trigger] list[j]).started_at >= started_at,
        newer(list, started_at) < list.len() ==> list[newer(list, started_at)].started_at
            < started_at,
    decreases list.len(),
{
    if list.len() > 0 && list[0].started_at >= started_at {
        let rest = list.subrange(1, list.len() as int);
        lemma_newer_bounds(rest, started_at);
        assert forall|j: int| 0 <= j < newer(list, started_at) implies (
        #[trigger] list[j]).started_at >= started_at by {
            if j > 0 {
                assert(rest[j - 1] == list[j]);
            }
        }
    }
}

/// Instances are listed from the newest to the oldest.
pub proof fn law_instances_are_listed_newest_first(prefix: Seq<char>, probes: Seq<Probe>)
    ensures
        is_newest_first(newest_first(prefix, probes)),
    decreases probes.len(),
{
    if probes.len() > 0 {
        law_instances_are_listed_newest_first(prefix, probes.drop_last());
        let before = newest_first(prefix, probes.drop_last());
        let vm = past_prefix(probes.last().link, prefix);
        let one = shown_vm(vm, probes.last());
        if vm.len() > 0 {
            lemma_newer_bounds(before, one.started_at);
            let k = newer(before, one.started_at);
            let after = placed(before, one);
            assert forall|i: int, j: int| 0 <= i <= j < after.len() implies (
            #[trigger] after[i]).started_at >= (#[trigger] after[j]).started_at by {
                let bi = if i < k {
                    i
                } else {
                    i - 1
                };
                let bj = if j < k {
                    j
                } else {
                    j - 1
                };
                if i != k && j != k {
                    assert(after[i] == before[bi]);
                    assert(after[j] == before[bj]);
                } else if i == k && j > k {
                    assert(after[j] == before[j - 1]);
                    assert(before[k].started_at >= before[j - 1].started_at);
                } else if j == k && i < k {
                    assert(after[i] == before[i]);
                }
            }
        }
    }
}

// ---------------------------------------------------------------- logs

/// The program and the entity that a link names for an instance.
pub open spec fn named_instance(link: Seq<char>, vm: Seq<char>) -> Option<
    (Seq<char>, Seq<char>),
> {
    let parts = pieces(link, "::"@);
    if has_suffix(link, "::"@ + vm) && parts.len() == 4 {
        Some((parts[1], parts[2]))
    } else {
        None
    }
}

/// The program and the entity of the first link that names an instance.
pub open spec fn instance_owner(links: Seq<Seq<char>>, vm: Seq<char>) -> Option<
    (Seq<char>, Seq<char>),
>
    decreases links.len(),
{
    if links.len() == 0 {
        None
    } else {
        match named_instance(links[0], vm) {
            Some(found) => Some(found),
            None => instance_owner(links.subrange(1, links.len() as int), vm),
        }
    }
}

/// The program and the entity that an instance belongs to.
pub fn instance_of_vm(links: &Vec<String>, vm: &str) -> (r: Option<(String, String)>)
    ensures
        match r {
            Some((program, entity)) => instance_owner(texts(links@), vm@) == Some(
                (program@, entity@),
            ),
            None => instance_owner(texts(links@), vm@) is None,
        },
{
    proof {
        reveal_strlit("::");
    }
    let suffix = join2("::", vm);
    let ghost all = texts(links@);
    let mut i: usize = 0;
    assert(all.subrange(0, all.len() as int) =~= all);
    while i < links.len()
        invariant
            i <= links@.len(),
            all == texts(links@),
            suffix@ == "::"@ + vm@,
            "::"@.len() > 0,
            instance_owner(all, vm@) == instance_owner(
                all.subrange(i as int, all.len() as int),
                vm@,
            ),
        decreases links.len() - i,
    {
        let ghost rest = all.subrange(i as int, all.len() as int);
        assert(rest[0] == links@[i as int]@);
        assert(rest.subrange(1, rest.len() as int) =~= all.subrange(i + 1, all.len() as int));
        if strip_suffix(links[i].as_str(), suffix.as_str()).is_some() {
            let parts = split(links[i].as_str(), "::");
            assert(texts(parts@).len() == parts@.len());
            if parts.len() == 4 {
                assert(texts(parts@)[1] == parts@[1]@);
                assert(texts(parts@)[2] == parts@[2]@);
                return Some((parts[1].clone(), parts[2].clone()));
            }
        }
        i = i + 1;
    }
    None
}

/// What to read of the logs of an instance: of which program and entity, from where on, how
/// many lines at most, and whether of its build.
pub struct LogRequest {
    pub program_id: String,
    pub entity_id: String,
    pub after: u64,
    pub count: usize,
    pub build: bool,
}

/// What to read of the logs of an instance, as texts and numbers.
pub struct LogRequestState {
    pub program_id: Seq<char>,
    pub entity_id: Seq<char>,
    pub after: int,
    pub count: int,
    pub build: bool,
}

impl View for LogRequest {
    type V = LogRequestState;

    open spec fn view(&self) -> LogRequestState {
        LogRequestState {
            program_id: self.program_id@,
            entity_id: self.entity_id@,
            after: self.after as int,
            count: self.count as int,
            build: self.build,
        }
    }
}

/// How many lines a request reads: what it asks for, between one and a thousand.
pub open spec fn log_count(count: int) -> int {
    if count < 1 {
        1
    } else if count > 1000 {
        1000
    } else {
        count
    }
}

/// What a request reads, or why its caller may not. `program` is the program that the
/// instance belongs to, where it is known.
pub open spec fn log_request(
    input: ReadVmLogsInput,
    instance: Option<(Seq<char>, Seq<char>)>,
    program: Option<ProgramRecord>,
    machine: Machines,
    caller: Seq<char>,
    has_vmm: bool,
) -> Result<LogRequestState, Seq<char>> {
    match instance {
        None => Err("vm not found"@),
        Some((_, entity)) => match program {
            None => Err("vm not found"@),
            Some(record) => if record.id@.len() == 0 {
                Err("vm not found"@)
            } else if machine.owner().owner_id != caller {
                Err("you are not owner of this vm"@)
            } else if !has_vmm {
                Err("this node has no VMM (ASEMAN_VMM_ENDPOINT)"@)
            } else {
                Ok(
                    LogRequestState {
                        program_id: record.id@,
                        entity_id: entity,
                        after: if input.offset < 0 {
                            0
                        } else {
                            input.offset as int
                        },
                        count: log_count(input.count as int),
                        build: input.log_type@ == "build"@,
                    },
                )
            },
        },
    }
}

/// What to read of the logs of an instance for its owner.
pub fn read_vm_logs(
    input: &ReadVmLogsInput,
    instance: &Option<(String, String)>,
    program: Option<&ProgramRecord>,
    machine: &ProgramMachines,
    caller: &str,
    has_vmm: bool,
) -> (r: Result<LogRequest, String>)
    ensures
        match r {
            Ok(request) => log_request(
                *input,
                match *instance {
                    Some((p, e)) => Some((p@, e@)),
                    None => None,
                },
                match program {
                    Some(record) => Some(*record),
                    None => None,
                },
                machine@,
                caller@,
                has_vmm,
            ) == Ok::<LogRequestState, Seq<char>>(request@),
            Err(e) => log_request(
                *input,
                match *instance {
                    Some((p, e)) => Some((p@, e@)),
                    None => None,
                },
                match program {
                    Some(record) => Some(*record),
                    None => None,
                },
                machine@,
                caller@,
                has_vmm,
            ) == Err::<LogRequestState, Seq<char>>(e@),
        },
{
    let entity: String = match instance {
        Some((_, entity)) => entity.clone(),
        None => {
            return Err("vm not found".to_owned());
        },
    };
    let record = match program {
        Some(record) => record,
        None => {
            return Err("vm not found".to_owned());
        },
    };
    if record.id.as_str().is_empty() {
        return Err("vm not found".to_owned());
    }
    let owner = resolve_program_owner_machine(&machine.recorded, &machine.linked);
    if !same(owner.owner_id.as_str(), caller) {
        return Err("you are not owner of this vm".to_owned());
    }
    if !has_vmm {
        return Err("this node has no VMM (ASEMAN_VMM_ENDPOINT)".to_owned());
    }
    let count: usize = if input.count < 1 {
        1
    } else if input.count > 1000 {
        1000
    } else {
        input.count as usize
    };
    let after: u64 = if input.offset < 0 {
        0
    } else {
        input.offset as u64
    };
    Ok(
        LogRequest {
            program_id: record.id.clone(),
            entity_id: entity,
            after,
            count,
            build: same(input.log_type.as_str(), "build"),
        },
    )
}

/// A line of an instance's log.
pub struct LogLine {
    pub sequence: u64,
    pub at_millis: i64,
    pub build: bool,
    pub line: String,
}

/// The lines of one stream, in their order and no more than `count` of them.
pub open spec fn chosen_lines(lines: Seq<LogLine>, build: bool, count: int) -> Seq<LogLine>
    decreases lines.len(),
{
    if lines.len() == 0 {
        Seq::empty()
    } else {
        let before = chosen_lines(lines.drop_last(), build, count);
        if lines.last().build == build && before.len() < count {
            before.push(lines.last())
        } else {
            before
        }
    }
}

/// The lines that a request reads.
pub fn select_log_lines(lines: Vec<LogLine>, build: bool, count: usize) -> (r: Vec<LogLine>)
    ensures
        r@ == chosen_lines(lines@, build, count as int),
{
    let ghost all = lines@;
    let mut rest = lines;
    let mut backwards: Vec<LogLine> = Vec::new();
    while rest.len() > 0
        invariant
            backwards@.len() + rest@.len() == all.len(),
            forall|j: int| 0 <= j < rest@.len() ==> rest@[j] == #[trigger] all[j],
            forall|j: int|
                0 <= j < backwards@.len() ==> #[trigger] backwards@[j] == all[all.len() - 1 - j],
        decreases rest.len(),
    {
        match rest.pop() {
            Some(line) => backwards.push(line),
            None => {},
        }
    }
    let mut out: Vec<LogLine> = Vec::new();
    assert(all.subrange(0, 0) =~= Seq::empty());
    let ghost mut done: int = 0;
    while backwards.len() > 0
        invariant
            0 <= done <= all.len(),
            backwards@.len() == all.len() - done,
            forall|j: int|
                0 <= j < backwards@.len() ==> #[trigger] backwards@[j] == all[all.len() - 1 - j],
            out@ == chosen_lines(all.subrange(0, done), build, count as int),
        decreases backwards.len(),
    {
        let ghost upto = all.subrange(0, done + 1);
        assert(upto.drop_last() =~= all.subrange(0, done));
        assert(upto.last() == all[done]);
        let ghost last = backwards@.len() - 1;
        assert(backwards@[last] == all[done]);
        match backwards.pop() {
            Some(line) => {
                if line.build == build && out.len() < count {
                    out.push(line);
                }
            },
            None => {},
        }
        proof {
            done = done + 1;
        }
    }
    assert(all.subrange(0, all.len() as int) =~= all);
    out
}

// ---------------------------------------------------------------- downloads

/// Why an entity cannot be downloaded, or the program and the bytes that are. `artifact` is
/// whether it is downloadable, and `bytes` its file where it can be read.
pub open spec fn download(
    input: DownloadEntityInput,
    artifact: bool,
    bytes: Option<Seq<u8>>,
) -> Result<(Seq<char>, Seq<u8>), Seq<char>> {
    let program = named_program(input.program_id@, input.machine_id@);
    if program.len() == 0 || input.entity_id@.len() == 0 {
        Err("programId and entityId are required"@)
    } else if !artifact {
        Err("entity is not downloadable"@)
    } else {
        match bytes {
            None => Err("entity file unavailable"@),
            Some(data) => Ok((program, data)),
        }
    }
}

/// The program and the file, encoded, of an entity that is downloaded.
pub fn download_entity(input: &DownloadEntityInput, artifact: bool, bytes: Option<&Vec<u8>>) -> (r:
    Result<(String, String), String>)
    requires
        bytes matches Some(data) ==> data@.len() <= usize::MAX / 4,
    ensures
        match r {
            Ok((program, payload)) => ({
                let data = match bytes {
                    Some(data) => data@,
                    None => Seq::empty(),
                };
                &&& bytes is Some
                &&& download(*input, artifact, Some(data)) == Ok::<
                    (Seq<char>, Seq<u8>),
                    Seq<char>,
                >((program@, data))
                &&& payload@ == base64_text(data)
            }),
            Err(e) => download(
                *input,
                artifact,
                match bytes {
                    Some(data) => Some(data@),
                    None => None,
                },
            ) == Err::<(Seq<char>, Seq<u8>), Seq<char>>(e@),
        },
{
    let program = requested_program(input.program_id.as_str(), input.machine_id.as_str());
    if program.as_str().is_empty() || input.entity_id.as_str().is_empty() {
        return Err("programId and entityId are required".to_owned());
    }
    if !artifact {
        return Err("entity is not downloadable".to_owned());
    }
    match bytes {
        Some(data) => Ok((program, base64_encode(data.as_slice()))),
        None => Err("entity file unavailable".to_owned()),
    }
}

// ---------------------------------------------------------------- listings

/// How a machine presents itself: its title, picture, and description, with the defaults
/// of one that does not.
pub open spec fn profile_field(profile: Option<Tree>, key: Seq<char>, default: Seq<char>) -> Tree {
    match profile {
        Some(fields) => match fields.field(key) {
            Some(value) => value,
            None => Tree::Text(default),
        },
        None => Tree::Text(default),
    }
}

/// A machine, as it is listed.
pub struct ListedMachine {
    pub id: String,
    pub chain_id: String,
    pub username: String,
    pub owner_id: String,
    pub programs_count: i64,
}

/// The row of a machine in a list.
pub open spec fn machine_row(machine: ListedMachine, profile: Option<Tree>) -> Tree {
    no_fields().with("id"@, Tree::Text(machine.id@)).with(
        "chainId"@,
        Tree::Text(machine.chain_id@),
    ).with("username"@, Tree::Text(machine.username@)).with(
        "ownerId"@,
        Tree::Text(machine.owner_id@),
    ).with("programsCount"@, Tree::Whole(machine.programs_count)).with(
        "title"@,
        profile_field(profile, "title"@, "untitled"@),
    ).with("avatar"@, profile_field(profile, "avatar"@, ""@)).with(
        "desc"@,
        profile_field(profile, "desc"@, ""@),
    )
}

fn profile_value(profile: Option<&Json>, key: &str, default: &str) -> (r: Json)
    ensures
        r@ == profile_field(
            match profile {
                Some(fields) => Some(fields@),
                None => None,
            },
            key@,
            default@,
        ),
{
    match profile {
        Some(fields) => match fields.field(key) {
            Some(value) => value.copy(),
            None => Json::Text(default.to_owned()),
        },
        None => Json::Text(default.to_owned()),
    }
}

/// The row of a machine in a list.
pub fn list_machine(machine: &ListedMachine, profile: Option<&Json>) -> (r: Json)
    ensures
        r@ == machine_row(
            *machine,
            match profile {
                Some(fields) => Some(fields@),
                None => None,
            },
        ),
{
    object().with("id", Json::Text(machine.id.clone())).with(
        "chainId",
        Json::Text(machine.chain_id.clone()),
    ).with("username", Json::Text(machine.username.clone())).with(
        "ownerId",
        Json::Text(machine.owner_id.clone()),
    ).with("programsCount", Json::Whole(machine.programs_count)).with(
        "title",
        profile_value(profile, "title", "untitled"),
    ).with("avatar", profile_value(profile, "avatar", "")).with(
        "desc",
        profile_value(profile, "desc", ""),
    )
}

/// What a node does with a program when it starts: whether it listens for its signals, and
/// whether it replays its alarm.
pub open spec fn start_duties(runtime: Seq<char>, proxy_key: Seq<char>, offered: bool) -> (
    bool,
    bool,
) {
    (entity_type_of(runtime) == proxy_key || offered, offered)
}

/// What a node does with a program when it starts. An entity that only forwards is listened
/// for as well, but has no alarm.
pub fn bootstrap_program(runtime: &str, proxy_key: &str, offered: bool) -> (r: (bool, bool))
    ensures
        r == start_duties(runtime@, proxy_key@, offered),
{
    let kind = normalize_entity_type(runtime);
    let forwards: bool = same(kind.as_str(), proxy_key);
    (forwards || offered, offered)
}

/// How long an alarm waits before it fires.
pub open spec fn alarm_wait(fire_at: int, now: int) -> int {
    if fire_at > now {
        fire_at - now
    } else {
        0
    }
}

/// How long an alarm waits before it fires, in milliseconds.
pub fn wait_for_alarm(fire_at: i64, now: i64) -> (r: u64)
    ensures
        r == alarm_wait(fire_at as int, now as int),
{
    if fire_at > now {
        (fire_at as i128 - now as i128) as u64
    } else {
        0
    }
}

// ---------------------------------------------------------------- machines of programs

/// A program as its machine lists it.
pub struct ListedProgram {
    pub id: String,
    pub comment: String,
}

/// Programs with their comments, as texts.
pub open spec fn comments(list: Seq<ListedProgram>) -> Rows<Seq<char>> {
    Seq::new(list.len(), |i: int| (list[i].id@, list[i].comment@))
}

/// What was last said of a program.
pub open spec fn last_comment(programs: Rows<Seq<char>>, id: Seq<char>) -> Seq<char>
    decreases programs.len(),
{
    if programs.len() == 0 {
        Seq::empty()
    } else if programs.last().0 == id {
        programs.last().1
    } else {
        last_comment(programs.drop_last(), id)
    }
}

/// A creature as it is listed with a comment.
pub open spec fn creature_row(record: Creature, comment: Seq<char>) -> Tree {
    no_fields().with("id"@, Tree::Text(record.id)).with(
        "type"@,
        Tree::Text(record.creature_type),
    ).with("username"@, Tree::Text(record.username)).with("comment"@, Tree::Text(comment))
}

/// The creatures that have the ids of programs, in the order of the programs; `all` is what
/// is said of each.
pub open spec fn program_rows(
    creatures: CreaturesState,
    programs: Rows<Seq<char>>,
    all: Rows<Seq<char>>,
) -> Seq<Tree>
    decreases programs.len(),
{
    if programs.len() == 0 {
        Seq::empty()
    } else {
        let before = program_rows(creatures, programs.drop_last(), all);
        match lookup(creatures.records, programs.last().0) {
            Some(record) => before.push(creature_row(record, last_comment(all, record.id))),
            None => before,
        }
    }
}

fn comment_of(programs: &Vec<ListedProgram>, id: &str) -> (r: String)
    ensures
        r@ == last_comment(comments(programs@), id@),
{
    let ghost all = comments(programs@);
    let mut i: usize = programs.len();
    assert(all.subrange(0, all.len() as int) =~= all);
    while i > 0
        invariant
            i <= programs@.len(),
            all == comments(programs@),
            last_comment(all, id@) == last_comment(all.subrange(0, i as int), id@),
        decreases i,
    {
        let ghost upto = all.subrange(0, i as int);
        assert(upto.drop_last() =~= all.subrange(0, i - 1));
        assert(upto.last() == (programs@[i - 1].id@, programs@[i - 1].comment@));
        if same(programs[i - 1].id.as_str(), id) {
            return programs[i - 1].comment.clone();
        }
        i = i - 1;
    }
    let empty = String::new();
    assert(empty@ =~= Seq::<char>::empty());
    empty
}

/// List the creatures that have the ids of programs.
pub fn list_program_machines(creatures: &Creatures, programs: &Vec<ListedProgram>) -> (r: Vec<Json>)
    ensures
        items_of(r@) == program_rows(
            creatures@,
            comments(programs@),
            comments(programs@),
        ),
{
    let ghost all = comments(programs@);
    let mut out: Vec<Json> = Vec::new();
    let mut i: usize = 0;
    assert(all.subrange(0, 0) =~= Seq::empty());
    assert(items_of(out@) =~= Seq::empty());
    while i < programs.len()
        invariant
            i <= programs@.len(),
            all == comments(programs@),
            items_of(out@) == program_rows(creatures@, all.subrange(0, i as int), all),
        decreases programs@.len() - i,
    {
        let ghost upto = all.subrange(0, i + 1);
        assert(upto.drop_last() =~= all.subrange(0, i as int));
        assert(upto.last() == (programs@[i as int].id@, programs@[i as int].comment@));
        if let Some(record) = creatures.creature(programs[i].id.as_str()) {
            let comment = comment_of(programs, record.id.as_str());
            let row = object().with("id", Json::Text(record.id.clone())).with(
                "type",
                Json::Text(record.creature_type.clone()),
            ).with("username", Json::Text(record.username.clone())).with(
                "comment",
                Json::Text(comment),
            );
            let ghost before = items_of(out@);
            let ghost shown = row@;
            out.push(row);
            assert(items_of(out@) =~= before.push(shown));
        }
        i = i + 1;
    }
    assert(all.subrange(0, all.len() as int) =~= all);
    out
}

} // verus!
