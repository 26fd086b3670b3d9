//! What is shown of instances, their logs, and the programs of a machine.
use vstd::prelude::*;

use crate::creature::directory::{Creature, CreaturesState};
use crate::decimal::read_i64;
use crate::json::Tree;
use crate::packets::program::{DownloadEntityInput, ReadVmLogsInput};
use crate::program::deploy::ProgramRecord;
use crate::program::machines::Machines;
use crate::program::queries::{
    alarm_wait, chosen_lines, creature_row, download, good_answer, instance_owner, last_comment,
    listing_refusal, log_request, machine_row, named_instance, program_rows, shown_answer,
    start_duties, ListedMachine, LogLine, Probe,
};
use crate::table::{law_lookup_after_store, lookup, Rows};
use crate::text::{has_suffix, pieces, trimmed};

verus! {

broadcast use law_lookup_after_store;

// ---------------------------------------------------------------- instances

/// An answer is good unless it says that it is not; then it says why.
pub proof fn law_answers_say_whether_they_are_good(value: Tree, e: Seq<char>)
    ensures
        good_answer(Err(e)) == Err::<Tree, Seq<char>>(e),
        value.field("ok"@) != Some(Tree::Bool(false)) ==> good_answer(Ok(value)) == Ok::<
            Tree,
            Seq<char>,
        >(value),
        value.field("ok"@) == Some(Tree::Bool(false)) ==> good_answer(Ok(value)) is Err,
        value.field("ok"@) == Some(Tree::Bool(false)) ==> (value.text("error"@) matches Some(why)
            ==> good_answer(Ok(value)) == Err::<Tree, Seq<char>>(why)),
{
}

/// An instance is shown with what the monitor says of it, where it answers well; where it does not,
/// as stopped or, if it was recorded as anything, as unknown, and as not running.
pub proof fn law_instances_are_shown_as_the_monitor_says(
    vm: Seq<char>,
    probe: Probe,
    answer: Result<Tree, Seq<char>>,
)
    ensures
        ({
            let shown = shown_answer(vm, probe, answer);
            let good = answer is Ok && answer->Ok_0.field("ok"@) != Some(Tree::Bool(false));
            let value = answer->Ok_0;
            &&& shown.vm_id == vm
            &&& shown.recorded_status == probe.recorded_status
            &&& read_i64(probe.started_at) matches Some(at) ==> shown.started_at == at
            &&& read_i64(probe.started_at) is None ==> shown.started_at == 0
            &&& good ==> shown.detail == value
            &&& good ==> (value.text("status"@) matches Some(status) ==> shown.status == status)
            &&& good && value.text("status"@) is None ==> shown.status == "unknown"@
            &&& good && value.field("running"@) == Some(Tree::Bool(true)) ==> shown.running
            &&& good && value.field("running"@) == Some(Tree::Bool(false)) ==> !shown.running
            &&& good && value.field("running"@) is None ==> shown.running == (shown.status
                == "running"@)
            &&& !good ==> !shown.running
            &&& !good && probe.recorded_status.len() == 0 ==> shown.status == "stopped"@
            &&& !good && probe.recorded_status.len() > 0 ==> shown.status == "unknown"@
            &&& !good ==> shown.detail.text("error"@) is Some
        }),
{
}

/// The instances of an entity are listed exactly to the owner of an existing program, for an entity
/// that exists, on a node with a monitor.
pub proof fn law_owners_list_their_instances(
    exists: bool,
    machine: Machines,
    caller: Seq<char>,
    has_entity: bool,
    has_vmm: bool,
)
    ensures
        (listing_refusal(exists, machine, caller, has_entity, has_vmm) is None) == (exists
            && machine.owner().owner_id == caller && has_entity && has_vmm),
{
}

/// An instance is one of the program and entity of the first link of four parts that ends with it.
pub proof fn law_the_first_link_names_the_instance(links: Seq<Seq<char>>, vm: Seq<char>, i: int)
    requires
        0 <= i < links.len(),
        has_suffix(links[i], "::"@ + vm),
        pieces(links[i], "::"@).len() == 4,
        forall|j: int|
            0 <= j < i ==> !(has_suffix(#[trigger] links[j], "::"@ + vm) && pieces(
                links[j],
                "::"@,
            ).len() == 4),
    ensures
        instance_owner(links, vm) == Some((pieces(links[i], "::"@)[1], pieces(links[i], "::"@)[2])),
    decreases links.len(),
{
    if i > 0 {
        let rest = links.subrange(1, links.len() as int);
        assert(rest[i - 1] == links[i]);
        assert(!(has_suffix(links[0], "::"@ + vm) && pieces(links[0], "::"@).len() == 4));
        assert(named_instance(links[0], vm) is None);
        assert forall|j: int| 0 <= j < i - 1 implies !(has_suffix(#[trigger] rest[j], "::"@ + vm)
            && pieces(rest[j], "::"@).len() == 4) by {
            assert(rest[j] == links[j + 1]);
        }
        law_the_first_link_names_the_instance(rest, vm, i - 1);
    }
}

// ---------------------------------------------------------------- logs

/// The log of an instance is read exactly by the owner of its program, on a node with a monitor:
/// from the offset on, between one and a thousand lines, of the kind that was asked for.
pub proof fn law_owners_read_their_logs(
    input: ReadVmLogsInput,
    instance: Option<(Seq<char>, Seq<char>)>,
    program: Option<ProgramRecord>,
    machine: Machines,
    caller: Seq<char>,
    has_vmm: bool,
)
    ensures
        ({
            let outcome = log_request(input, instance, program, machine, caller, has_vmm);
            &&& (outcome is Ok) == (instance is Some && program is Some && program->0.id@.len() > 0
                && machine.owner().owner_id == caller && has_vmm)
            &&& outcome matches Ok(request) ==> {
                let (_, entity) = instance->0;
                &&& request.program_id == program->0.id@
                &&& request.entity_id == entity
                &&& input.offset >= 0 ==> request.after == input.offset
                &&& input.offset < 0 ==> request.after == 0
                &&& 1 <= request.count <= 1000
                &&& 1 <= input.count <= 1000 ==> request.count == input.count
                &&& input.count < 1 ==> request.count == 1
                &&& input.count > 1000 ==> request.count == 1000
                &&& request.build == (input.log_type@ == "build"@)
            }
        }),
{
}

/// The lines that are shown are the first ones of the kind that was asked for, as many as there may
/// be.
pub proof fn law_the_first_lines_of_a_kind_are_shown(
    lines: Seq<LogLine>,
    last: LogLine,
    build: bool,
    count: int,
)
    requires
        count >= 0,
    ensures
        ({
            let before = chosen_lines(lines, build, count);
            let after = chosen_lines(lines.push(last), build, count);
            &&& last.build == build && before.len() < count ==> after == before.push(last)
            &&& last.build != build || before.len() >= count ==> after == before
            &&& chosen_lines(Seq::empty(), build, count).len() == 0
            &&& before.len() <= count
        }),
    decreases lines.len(),
{
    assert(lines.push(last).drop_last() =~= lines);
    if lines.len() > 0 {
        law_the_first_lines_of_a_kind_are_shown(lines.drop_last(), lines.last(), build, count);
        assert(lines =~= lines.drop_last().push(lines.last()));
    }
}

// ---------------------------------------------------------------- programs

/// An entity is downloaded exactly where it and its program are named, it may be, and its file is
/// there; a program that is not named is that of the machine.
pub proof fn law_downloadable_entities_are_downloaded(
    input: DownloadEntityInput,
    artifact: bool,
    bytes: Option<Seq<u8>>,
)
    ensures
        ({
            let program = if input.program_id@.len() > 0 {
                input.program_id@
            } else {
                input.machine_id@
            };
            &&& (download(input, artifact, bytes) is Ok) == (program.len() > 0
                && input.entity_id@.len() > 0 && artifact && bytes is Some)
            &&& download(input, artifact, bytes) matches Ok(file) ==> file == (program, bytes->0)
        }),
{
}

/// A machine is listed with its name, owner and number of programs, and with its profile or the
/// plain one.
#[verifier::rlimit(30)]
pub proof fn law_machines_are_listed_with_their_profile(
    machine: ListedMachine,
    profile: Option<Tree>,
)
    ensures
        ({
            let row = machine_row(machine, profile);
            let title = profile is Some && profile->0.field("title"@) is Some;
            let avatar = profile is Some && profile->0.field("avatar"@) is Some;
            let desc = profile is Some && profile->0.field("desc"@) is Some;
            &&& row.text("id"@) == Some(machine.id@)
            &&& row.text("chainId"@) == Some(machine.chain_id@)
            &&& row.text("username"@) == Some(machine.username@)
            &&& row.text("ownerId"@) == Some(machine.owner_id@)
            &&& row.whole("programsCount"@) == Some(machine.programs_count)
            &&& title ==> row.field("title"@) == profile->0.field("title"@)
            &&& !title ==> row.text("title"@) == Some("untitled"@)
            &&& avatar ==> row.field("avatar"@) == profile->0.field("avatar"@)
            &&& !avatar ==> row.text("avatar"@) == Some(""@)
            &&& desc ==> row.field("desc"@) == profile->0.field("desc"@)
            &&& !desc ==> row.text("desc"@) == Some(""@)
        }),
{
    reveal_strlit("id");
    reveal_strlit("chainId");
    reveal_strlit("username");
    reveal_strlit("ownerId");
    reveal_strlit("programsCount");
    reveal_strlit("title");
    reveal_strlit("avatar");
    reveal_strlit("desc");
    assert("id"@.len() == 2);
    assert("chainId"@.len() == 7 && "chainId"@[0] == 'c');
    assert("username"@.len() == 8);
    assert("ownerId"@.len() == 7 && "ownerId"@[0] == 'o');
    assert("programsCount"@.len() == 13 && "title"@.len() == 5 && "avatar"@.len() == 6);
    assert("desc"@.len() == 4);
}

/// A creature is listed with its id, type and name, and what its program says of it.
pub proof fn law_creatures_are_listed_with_their_comment(record: Creature, comment: Seq<char>)
    ensures
        ({
            let row = creature_row(record, comment);
            &&& row.text("id"@) == Some(record.id)
            &&& row.text("type"@) == Some(record.creature_type)
            &&& row.text("username"@) == Some(record.username)
            &&& row.text("comment"@) == Some(comment)
        }),
{
    reveal_strlit("id");
    reveal_strlit("type");
    reveal_strlit("username");
    reveal_strlit("comment");
    assert("id"@.len() == 2 && "type"@.len() == 4 && "username"@.len() == 8);
    assert("comment"@.len() == 7);
}

/// Programs are listed in their order, those that are known creatures, each with the last comment
/// under its id.
pub proof fn law_known_programs_are_listed_in_order(
    creatures: CreaturesState,
    programs: Rows<Seq<char>>,
    last: (Seq<char>, Seq<char>),
    all: Rows<Seq<char>>,
)
    ensures
        ({
            let before = program_rows(creatures, programs, all);
            let after = program_rows(creatures, programs.push(last), all);
            &&& lookup(creatures.records, last.0) matches Some(record) ==> after == before.push(
                creature_row(record, last_comment(all, record.id)),
            )
            &&& lookup(creatures.records, last.0) is None ==> after == before
            &&& program_rows(creatures, Seq::empty(), all).len() == 0
            &&& last_comment(programs.push(last), last.0) == last.1
        }),
{
    assert(programs.push(last).drop_last() =~= programs);
}

/// A proxy takes signals without a monitor; what the monitor offers takes signals and is run.
pub proof fn law_offered_runtimes_are_run(runtime: Seq<char>, proxy_key: Seq<char>)
    ensures
        start_duties(runtime, proxy_key, true) == (true, true),
        start_duties(runtime, crate::outside::lowercase_of(trimmed(runtime)), false) == (
            true,
            false,
        ),
        crate::outside::lowercase_of(trimmed(runtime)) != proxy_key ==> start_duties(
            runtime,
            proxy_key,
            false,
        ) == (false, false),
{
}

/// An alarm waits until it is due, and not at all once it is.
pub proof fn law_alarms_wait_until_they_are_due(fire_at: int, now: int)
    ensures
        fire_at > now ==> now + alarm_wait(fire_at, now) == fire_at,
        fire_at <= now ==> alarm_wait(fire_at, now) == 0,
{
}

} // verus!
