//! When programs are deployed, routed and changed, and what that leaves behind.
use vstd::prelude::*;

use crate::json::{merged, Tree};
use crate::outside::lowercase_of;
use crate::outside::base64_text;
use crate::packets::program::DeployInput;
use crate::program::catalog::{
    program_deleted, program_filed, program_updated, Program, ProgramFault, ProgramsState,
};
use crate::program::deploy::{
    deployed, extra_files, shipped, DeployConventions, DeployedState, DeploymentState,
    ProgramRecord, VmmOffer,
};
use crate::program::gateway::{
    forwarded_answer, instance_url, request_path, route_registered, InstanceAnswer, Route,
    RoutesState,
};
use crate::program::machines::Machines;
use crate::program::target::{targeted, TargetOwners};
use crate::table::{law_lookup_after_drop, law_lookup_after_store, lookup, Rows};
use crate::text::trimmed;

verus! {

broadcast use law_lookup_after_store;

// ---------------------------------------------------------------- files

/// Whether the files that a deployment lists are texts whose bytes were decoded.
pub open spec fn files_decode(
    rows: Rows<Tree>,
    contents: Seq<Result<Seq<u8>, Seq<char>>>,
    n: int,
) -> bool {
    forall|i: int| 0 <= i < n ==> (#[trigger] rows[i]).1 is Text && contents[i] is Ok
}

/// Listed files are taken exactly where each is a text whose bytes were decoded, in their order,
/// with their names, bytes and texts.
pub proof fn law_listed_files_are_taken_in_order(
    rows: Rows<Tree>,
    contents: Seq<Result<Seq<u8>, Seq<char>>>,
    n: int,
)
    requires
        0 <= n <= rows.len(),
        n <= contents.len(),
    ensures
        (extra_files(rows, contents, n) is Ok) == files_decode(rows, contents, n),
        extra_files(rows, contents, n) matches Ok(files) ==> files.len() == n && forall|i: int|
            0 <= i < n ==> (#[trigger] files[i]).name == rows[i].0 && rows[i].1 == Tree::Text(
                files[i].payload,
            ) && contents[i] == Ok::<Seq<u8>, Seq<char>>(files[i].bytes),
    decreases n,
{
    if n > 0 {
        law_listed_files_are_taken_in_order(rows, contents, n - 1);
        if files_decode(rows, contents, n - 1) && rows[n - 1].1 is Text && contents[n - 1] is Ok {
            assert(files_decode(rows, contents, n));
        }
        if files_decode(rows, contents, n) {
            assert(rows[n - 1].1 is Text);
        }
    }
}

// ---------------------------------------------------------------- deploying

/// The rows of the files that a deployment lists.
pub open spec fn rows_of(metadata: Tree) -> Rows<Tree> {
    match metadata.field("files"@) {
        Some(Tree::Object(rows)) => rows,
        _ => Seq::empty(),
    }
}

/// Whether a deployment lists its files as it should, or none.
pub open spec fn lists_files(metadata: Tree) -> bool {
    match metadata.field("files"@) {
        None => true,
        Some(value) => value is Null || value is Object,
    }
}

/// An entity that is no proxy is deployed exactly where its program exists, its owner asks, the
/// monitor offers its type, its code was decoded, and, where the type takes them, so were the
/// files that it lists.
pub proof fn law_owners_deploy_what_decodes(
    links: Rows<Seq<char>>,
    routes: RoutesState,
    input: DeployInput,
    program: Option<ProgramRecord>,
    machine: Machines,
    caller: Seq<char>,
    proxy_key: Seq<char>,
    proxy_target: Result<Tree, Seq<char>>,
    vmm: Option<VmmOffer>,
    cluster: bool,
    payload: Result<Seq<u8>, Seq<char>>,
    contents: Seq<Result<Seq<u8>, Seq<char>>>,
    gateway_path: Seq<char>,
)
    requires
        lowercase_of(trimmed(input.entity_type@)) != proxy_key,
        contents.len() == rows_of(input.metadata@).len(),
    ensures
        (deployed(
            links,
            routes,
            input,
            program,
            machine,
            caller,
            proxy_key,
            proxy_target,
            vmm,
            cluster,
            payload,
            contents,
            gateway_path,
        ) is Ok) == {
            &&& program is Some
            &&& machine.owner().owner_id == caller
            &&& payload is Ok
            &&& vmm matches Some(offer) && (offer.conventions matches Some(conventions) && (
            !conventions.accepts_extra_files || lists_files(input.metadata@) && files_decode(
                rows_of(input.metadata@),
                contents,
                contents.len() as int,
            )))
        },
{
    law_listed_files_are_taken_in_order(
        rows_of(input.metadata@),
        contents,
        contents.len() as int,
    );
}

/// What is deployed is the entity that was asked for, under its program, with its code first under
/// the name that its type calls for and then the listed files; it goes to every node exactly where
/// that was asked for and there are others.
#[verifier::rlimit(30)]
pub proof fn law_what_is_deployed_is_what_was_asked_for(
    links: Rows<Seq<char>>,
    routes: RoutesState,
    input: DeployInput,
    program: ProgramRecord,
    machine: Machines,
    caller: Seq<char>,
    proxy_key: Seq<char>,
    proxy_target: Result<Tree, Seq<char>>,
    offer: VmmOffer,
    conventions: DeployConventions,
    cluster: bool,
    data: Seq<u8>,
    contents: Seq<Result<Seq<u8>, Seq<char>>>,
    gateway_path: Seq<char>,
    after: DeployedState,
    other: Seq<char>,
    i: int,
)
    requires
        lowercase_of(trimmed(input.entity_type@)) != proxy_key,
        contents.len() == rows_of(input.metadata@).len(),
        offer.conventions == Some(conventions),
        deployed(
            links,
            routes,
            input,
            Some(program),
            machine,
            caller,
            proxy_key,
            proxy_target,
            Some(offer),
            cluster,
            Ok(data),
            contents,
            gateway_path,
        ) == Ok::<DeployedState, Seq<char>>(after),
    ensures
        ({
            let entity_type = lowercase_of(trimmed(input.entity_type@));
            let scope = lowercase_of(trimmed(input.distribution@));
            let everywhere = cluster && (input.distributed || scope == "cluster"@ || scope
                == "global"@ || scope == "distributed"@);
            let label = if everywhere {
                "cluster"@
            } else {
                "local"@
            };
            let whole = "vmDistribution::"@ + program.id@;
            let single = "vmDistribution::"@ + program.id@ + "::"@ + input.entity_id@;
            let rows = rows_of(input.metadata@);
            &&& lookup(after.links, whole) == Some(label)
            &&& lookup(after.links, single) == Some(label)
            &&& other != whole && other != single ==> lookup(after.links, other) == lookup(
                links,
                other,
            )
            &&& after.routes == route_registered(
                routes,
                Route {
                    creature_id: program.machine_id@,
                    path: gateway_path,
                    program_id: program.id@,
                    entity_id: input.entity_id@,
                    runtime: entity_type,
                    pinned_vm_id: trimmed(input.metadata@.text_or_empty("gatewayVmId"@)),
                },
                machine.recorded.local_part,
            )
            &&& after.deployment matches DeploymentState::Entity {
                record,
                files,
                runtime_file,
                downloadable,
                artifact,
            } && {
                &&& record.program_id == program.id@
                &&& record.entity_id == input.entity_id@
                &&& record.entity_type == entity_type
                &&& record.image_name == input.entity_id@
                &&& runtime_file
                &&& downloadable == input.downloadable
                &&& files.len() == 1 + if conventions.accepts_extra_files {
                    rows.len() as int
                } else {
                    0
                }
                &&& files[0].name == conventions.entity_file_name@
                &&& files[0].bytes == data
                &&& files[0].payload == input.payload@
                &&& 1 <= i < files.len() ==> files[i].name == rows[i - 1].0 && rows[i - 1].1
                    == Tree::Text(files[i].payload) && contents[i - 1] == Ok::<Seq<u8>, Seq<char>>(
                    files[i].bytes,
                )
                &&& (artifact is Some) == everywhere
                &&& artifact matches Some(sent) ==> {
                    &&& sent.program_id == program.id@
                    &&& sent.entity_id == input.entity_id@
                    &&& sent.entity_type == entity_type
                    &&& sent.machine_id == program.machine_id@
                    &&& sent.runtime == program.runtime@
                    &&& sent.path == program.path@
                    &&& sent.comment == program.comment@
                    &&& sent.primary_file_name == conventions.entity_file_name@
                    &&& sent.set_entity_links
                    &&& sent.build_on_deploy == conventions.build_on_deploy
                    &&& sent.gateway_route == gateway_path
                    &&& sent.gateway_vm_id == trimmed(
                        input.metadata@.text_or_empty("gatewayVmId"@),
                    )
                    &&& sent.files.len() == files.len()
                    &&& 0 <= i < files.len() ==> sent.files[i] == (files[i].name, files[i].payload)
                }
            }
        }),
{
    law_listed_files_are_taken_in_order(
        rows_of(input.metadata@),
        contents,
        contents.len() as int,
    );
    let whole = "vmDistribution::"@ + program.id@;
    let single = "vmDistribution::"@ + program.id@ + "::"@ + input.entity_id@;
    if let DeploymentState::Entity { files, .. } = after.deployment {
        let more = if conventions.accepts_extra_files {
            extra_files(rows_of(input.metadata@), contents, contents.len() as int)->Ok_0
        } else {
            Seq::empty()
        };
        assert(files.len() == 1 + more.len());
        if 1 <= i < files.len() {
            assert(files[i] == more[i - 1]);
        }
        if 0 <= i < files.len() {
            assert(shipped(files)[i] == (files[i].name, files[i].payload));
        }
    }
}

/// A proxy is deployed exactly where its program exists, its owner asks, and its target and data
/// were read; it changes no link and no route.
pub proof fn law_owners_deploy_proxies(
    links: Rows<Seq<char>>,
    routes: RoutesState,
    input: DeployInput,
    program: Option<ProgramRecord>,
    machine: Machines,
    caller: Seq<char>,
    proxy_target: Result<Tree, Seq<char>>,
    vmm: Option<VmmOffer>,
    cluster: bool,
    payload: Result<Seq<u8>, Seq<char>>,
    contents: Seq<Result<Seq<u8>, Seq<char>>>,
    gateway_path: Seq<char>,
)
    ensures
        ({
            let outcome = deployed(
                links,
                routes,
                input,
                program,
                machine,
                caller,
                lowercase_of(trimmed(input.entity_type@)),
                proxy_target,
                vmm,
                cluster,
                payload,
                contents,
                gateway_path,
            );
            &&& (outcome is Ok) == (program is Some && machine.owner().owner_id == caller
                && proxy_target is Ok && payload is Ok)
            &&& outcome matches Ok(after) ==> after.links == links && after.routes == routes
                && after.deployment == (DeploymentState::Proxy {
                data: payload->Ok_0,
                target: proxy_target->Ok_0,
            })
        }),
{
}

// ---------------------------------------------------------------- routes

/// Binding an entity to a path for the first time places its route there, tells where the entity
/// answers, and names its creature by its short name where that is another; everything else stays.
pub proof fn law_a_first_route_is_placed(
    state: RoutesState,
    route: Route,
    local_part: Seq<char>,
    other: Seq<char>,
)
    requires
        lookup(
            state.by_entity,
            "vmHttpRouteFor::"@ + route.program_id + "::"@ + route.entity_id,
        ) is None,
    ensures
        ({
            let after = route_registered(state, route, local_part);
            let key = "vmHttpRoute::"@ + route.creature_id + "::"@ + route.path;
            let back = "vmHttpRouteFor::"@ + route.program_id + "::"@ + route.entity_id;
            let short = "vmHttpRouteUser::"@ + local_part;
            let named = local_part.len() > 0 && local_part != route.creature_id;
            &&& route.path.len() == 0 || route.creature_id.len() == 0 ==> after == state
            &&& route.path.len() > 0 && route.creature_id.len() > 0 ==> {
                &&& lookup(after.routes, key) == Some(route)
                &&& lookup(after.by_entity, back) == Some(route.creature_id + "::"@ + route.path)
                &&& named ==> lookup(after.aliases, short) == Some(route.creature_id)
                &&& !named ==> after.aliases == state.aliases
                &&& other != key ==> lookup(after.routes, other) == lookup(state.routes, other)
                &&& other != back ==> lookup(after.by_entity, other) == lookup(
                    state.by_entity,
                    other,
                )
                &&& other != short ==> lookup(after.aliases, other) == lookup(state.aliases, other)
            }
        }),
{
    reveal_strlit("::");
    assert("::"@.len() == 2);
    crate::text::lemma_first_from(Seq::<char>::empty(), "::"@, 0);
}

/// The path of a request begins with a slash, and is otherwise what was asked for.
pub proof fn law_request_paths_begin_with_a_slash(path: Seq<char>)
    ensures
        request_path(path).len() > 0,
        request_path(path)[0] == '/',
        trimmed(path).len() > 0 && path[0] == '/' ==> request_path(path) == path,
        trimmed(path).len() > 0 && path.len() > 0 && path[0] != '/' ==> request_path(path).len()
            == path.len() + 1 && request_path(path).subrange(1, path.len() as int + 1) == path,
        trimmed(path).len() == 0 ==> request_path(path).len() == 1,
{
    reveal_strlit("/");
    assert("/"@.len() == 1 && "/"@[0] == '/');
    if trimmed(path).len() > 0 && path.len() > 0 && path[0] != '/' {
        assert(request_path(path).subrange(1, path.len() as int + 1) =~= path);
    }
}

/// A request goes to the host and port of its instance.
pub proof fn law_requests_go_to_the_host_and_port(host: Seq<char>, port: u16, path: Seq<char>)
    ensures
        instance_url(host, port as int, path) == "http://"@ + host + ":"@ + crate::decimal::decimal(
            port as int,
        ) + request_path(path),
{
}

/// What an instance answered goes back with its status and its body.
pub proof fn law_answers_go_back_whole(answer: InstanceAnswer)
    ensures
        ({
            let reply = forwarded_answer(answer);
            &&& reply.flag("ok"@)
            &&& reply.text("protocol"@) == Some("http"@)
            &&& reply.text("runtime"@) == Some(answer.runtime@)
            &&& reply.text("machineId"@) == Some(answer.machine_id@)
            &&& reply.text("vmId"@) == Some(answer.vm_id@)
            &&& reply.whole("status"@) == Some(answer.status as i64)
            &&& reply.text("bodyBase64"@) == Some(base64_text(answer.body@))
        }),
{
    reveal_strlit("ok");
    reveal_strlit("protocol");
    reveal_strlit("runtime");
    reveal_strlit("machineId");
    reveal_strlit("vmId");
    reveal_strlit("status");
    reveal_strlit("bodyBase64");
    assert("ok"@.len() == 2 && "protocol"@.len() == 8 && "runtime"@.len() == 7);
    assert("machineId"@.len() == 9 && "vmId"@.len() == 4 && "status"@.len() == 6);
    assert("bodyBase64"@.len() == 10);
}

// ---------------------------------------------------------------- the catalog of programs

/// A program is filed as it is, over nothing of any other.
pub proof fn law_a_program_is_filed_as_it_is(
    state: ProgramsState,
    program: Program,
    other: Seq<char>,
)
    ensures
        lookup(program_filed(state, program).records, program.id) == Some(program),
        lookup(program_filed(state, program).metadata, program.id) is Some,
        other != program.id ==> lookup(program_filed(state, program).records, other) == lookup(
            state.records,
            other,
        ) && lookup(program_filed(state, program).metadata, other) == lookup(state.metadata, other),
{
}

/// A program is updated exactly by the owner of its machine: it gets its new path, and its document
/// is laid over the earlier one where there is anything in it.
pub proof fn law_owners_update_their_programs(
    state: ProgramsState,
    machine_owners: Rows<Seq<char>>,
    caller: Seq<char>,
    program: Seq<char>,
    path: Seq<char>,
    metadata: Tree,
    other: Seq<char>,
)
    ensures
        match program_updated(state, machine_owners, caller, program, path, metadata) {
            Ok(after) => lookup(state.records, program) matches Some(record) && {
                &&& lookup(machine_owners, record.machine_id) == Some(caller)
                &&& lookup(after.records, program) == Some(Program { path, ..record })
                &&& metadata.fields().len() == 0 ==> after.metadata == state.metadata
                &&& metadata.fields().len() > 0 ==> lookup(after.metadata, program) == Some(
                    match lookup(state.metadata, program) {
                        Some(earlier) => merged(earlier, metadata),
                        None => metadata,
                    },
                )
                &&& other != program ==> lookup(after.records, other) == lookup(
                    state.records,
                    other,
                ) && lookup(after.metadata, other) == lookup(state.metadata, other)
            },
            Err(ProgramFault::NotFound) => lookup(state.records, program) is None,
            Err(ProgramFault::NotOwner) => lookup(state.records, program) matches Some(record)
                && lookup(machine_owners, record.machine_id) != Some(caller),
        },
{
}

/// A program is taken out exactly by the owner of its machine, and no other is.
pub proof fn law_owners_take_out_their_programs(
    state: ProgramsState,
    machine_owners: Rows<Seq<char>>,
    caller: Seq<char>,
    program: Seq<char>,
    other: Seq<char>,
)
    ensures
        (program_deleted(state, machine_owners, caller, program) is Ok) == (lookup(
            state.records,
            program,
        ) matches Some(record) && lookup(machine_owners, record.machine_id) == Some(caller)),
        program_deleted(state, machine_owners, caller, program) matches Ok(after) ==> {
            &&& lookup(after.records, program) is None
            &&& lookup(after.metadata, program) is None
            &&& other != program ==> lookup(after.records, other) == lookup(state.records, other)
                && lookup(after.metadata, other) == lookup(state.metadata, other)
        },
{
    law_lookup_after_drop(state.records, program, program);
    law_lookup_after_drop(state.records, program, other);
    law_lookup_after_drop(state.metadata, program, program);
    law_lookup_after_drop(state.metadata, program, other);
}

// ---------------------------------------------------------------- acting on another program

proof fn lemma_op_words()
    ensures
        "createProgram"@ != "deployEntity"@,
        "createProgram"@ != "deploy entity"@,
        "createProgram"@ != "deleteProgram"@,
        "createProgram"@ != "deleteOwnedProgram"@,
        "createProgram"@ != "updateProgram"@,
        "createProgram"@ != "getProgram"@,
{
    reveal_strlit("createProgram");
    reveal_strlit("deployEntity");
    reveal_strlit("deploy entity");
    reveal_strlit("deleteProgram");
    reveal_strlit("deleteOwnedProgram");
    reveal_strlit("updateProgram");
    reveal_strlit("getProgram");
    assert("createProgram"@[0] == 'c');
    assert("deployEntity"@[0] == 'd');
    assert("deploy entity"@[0] == 'd');
    assert("deleteProgram"@[0] == 'd');
    assert("deleteOwnedProgram"@[0] == 'd');
    assert("updateProgram"@[0] == 'u');
    assert("getProgram"@[0] == 'g');
}

/// A call that names a target program reaches it exactly where the caller is the target, or has
/// its owner, or only reads it; the call is then on the target, and keeps everything else.
pub proof fn law_calls_reach_programs_of_the_same_owner(
    op: Seq<char>,
    caller_program: Seq<char>,
    input: Tree,
    owners: TargetOwners,
    target: Seq<char>,
    key: Seq<char>,
)
    requires
        input is Object,
        trimmed(input.text_or_empty("targetProgramId"@)) == target,
        target.len() > 0,
        op == "deployEntity"@ || op == "deploy entity"@ || op == "deleteProgram"@ || op
            == "deleteOwnedProgram"@ || op == "updateProgram"@ || op == "getProgram"@,
    ensures
        (targeted(op, caller_program, input, owners) is Ok) == (op == "getProgram"@ || trimmed(
            caller_program,
        ) == target || owners.target@.len() > 0 && owners.target@ == owners.caller@),
        targeted(op, caller_program, input, owners) matches Ok(shaped) ==> {
            &&& shaped.text("programId"@) == Some(target)
            &&& shaped.field("targetProgramId"@) is None
            &&& key != "programId"@ && key != "targetProgramId"@ ==> shaped.field(key)
                == input.field(key)
        },
{
    lemma_op_words();
    reveal_strlit("programId");
    reveal_strlit("targetProgramId");
    assert("programId"@.len() == 9 && "targetProgramId"@.len() == 15);
    law_lookup_after_drop(input.fields(), "targetProgramId"@, "targetProgramId"@);
    law_lookup_after_drop(input.fields(), "targetProgramId"@, key);
}

/// A call that names no target, or is not about a program, is left as it is but for the name of
/// its target.
pub proof fn law_other_calls_are_left_as_they_are(
    op: Seq<char>,
    caller_program: Seq<char>,
    input: Tree,
    owners: TargetOwners,
    key: Seq<char>,
)
    requires
        input is Object,
        op != "createProgram"@,
        trimmed(input.text_or_empty("targetProgramId"@)).len() == 0 || op != "deployEntity"@ && op
            != "deploy entity"@ && op != "deleteProgram"@ && op != "deleteOwnedProgram"@ && op
            != "updateProgram"@ && op != "getProgram"@,
    ensures
        targeted(op, caller_program, input, owners) matches Ok(shaped) && (key
            != "targetProgramId"@ ==> shaped.field(key) == input.field(key)),
{
    law_lookup_after_drop(input.fields(), "targetProgramId"@, key);
}

/// A program is created on the machine of the app that the call names, unless it names another
/// machine than the caller; and not on a machine whose owner is another than the caller's.
pub proof fn law_programs_are_created_on_own_machines(
    caller_program: Seq<char>,
    input: Tree,
    owners: TargetOwners,
    app: Seq<char>,
    machine: Seq<char>,
)
    requires
        input is Object,
        trimmed(input.text_or_empty("appId"@)) == app,
        trimmed(input.text_or_empty("machineId"@)) == machine,
    ensures
        ({
            let caller = trimmed(caller_program);
            let moved = app.len() > 0 && (machine.len() == 0 || machine == caller);
            let place = if moved {
                trimmed(app)
            } else {
                machine
            };
            let outcome = targeted("createProgram"@, caller_program, input, owners);
            &&& (outcome is Ok) == (place.len() == 0 || place == caller || owners.machine@.len()
                == 0 || owners.machine@ == owners.caller@)
            &&& outcome matches Ok(shaped) ==> {
                &&& moved ==> shaped.text("machineId"@) == Some(app)
                &&& !moved ==> shaped.field("machineId"@) == input.field("machineId"@)
                &&& caller.len() > 0 && trimmed(input.text_or_empty("programId"@)) == caller
                    ==> shaped.field("programId"@) is None
            }
        }),
{
    reveal_strlit("appId");
    reveal_strlit("machineId");
    reveal_strlit("programId");
    reveal_strlit("targetProgramId");
    assert("appId"@.len() == 5 && "machineId"@.len() == 9 && "programId"@.len() == 9);
    assert("machineId"@[0] == 'm' && "programId"@[0] == 'p');
    assert("targetProgramId"@.len() == 15);
    let f = input.fields();
    law_lookup_after_drop(f, "targetProgramId"@, "appId"@);
    law_lookup_after_drop(f, "targetProgramId"@, "machineId"@);
    law_lookup_after_drop(f, "targetProgramId"@, "programId"@);
    let g = input.without("targetProgramId"@).fields();
    law_lookup_after_drop(g, "programId"@, "appId"@);
    law_lookup_after_drop(g, "programId"@, "machineId"@);
    law_lookup_after_drop(g, "programId"@, "programId"@);
}

} // verus!
