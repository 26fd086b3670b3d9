//! Which instance answers a request, and what it and its callers are told.
use vstd::prelude::*;

use crate::creature::directory::CreaturesState;
use crate::json::Tree;
use crate::program::gateway::{Route, RoutesState};
use crate::table::{law_lookup_after_store, lookup, Rows};
use crate::text::{joined, nonempty, pieces, trimmed};
use crate::workloads::{
    accepted, artifact_served, candidates, digest_of, failed, first_route, handed_over, http_answer,
    http_call, http_route, longest, request_headers, request_signal, route_document, runtime_text,
    served_key, signal_response, signalled_request, step_from, text_fields, Handoff, HandoffEvent,
    NextStep, Resolved,
};

verus! {

broadcast use law_lookup_after_store;

// ---------------------------------------------------------------- resolving

/// Whether a creature has a route for the first parts of a path.
pub open spec fn has_route(
    routes: Rows<Route>,
    creature: Seq<char>,
    parts: Seq<Seq<char>>,
    n: int,
) -> bool {
    lookup(
        routes,
        "vmHttpRoute::"@ + creature + "::"@ + joined(parts.subrange(0, n), "/"@),
    ) is Some
}

proof fn lemma_longest(
    routes: Rows<Route>,
    creature: Seq<char>,
    parts: Seq<Seq<char>>,
    most: int,
)
    ensures
        ({
            let take = longest(routes, creature, parts, most);
            &&& 0 <= take
            &&& most >= 0 ==> take <= most
            &&& take > 0 ==> has_route(routes, creature, parts, take)
            &&& forall|n: int|
                0 < n <= most && #[trigger] has_route(routes, creature, parts, n) ==> n <= take
        }),
    decreases most,
{
    if most > 0 && !has_route(routes, creature, parts, most) {
        lemma_longest(routes, creature, parts, most - 1);
    }
}

/// A request is answered by the first creature that has a route for the beginning of its path, under
/// the longest such route, and the rest of the path goes on; it is answered by none exactly where no
/// creature has one.
pub proof fn law_the_first_creature_with_a_route_answers(
    routes: Rows<Route>,
    creatures: Seq<Seq<char>>,
    parts: Seq<Seq<char>>,
    most: int,
)
    requires
        0 <= most <= parts.len(),
    ensures
        match first_route(routes, creatures, parts, most) {
            Some(found) => exists|i: int, take: int|
                #![trigger has_route(routes, creatures[i], parts, take)]
                0 <= i < creatures.len() && 0 < take <= most && has_route(
                    routes,
                    creatures[i],
                    parts,
                    take,
                ) && {
                    let route = lookup(
                        routes,
                        "vmHttpRoute::"@ + creatures[i] + "::"@ + joined(
                            parts.subrange(0, take),
                            "/"@,
                        ),
                    )->0;
                    &&& forall|j: int, n: int|
                        0 <= j < i && 0 < n <= most ==> !(#[trigger] has_route(
                            routes,
                            creatures[j],
                            parts,
                            n,
                        ))
                    &&& forall|n: int|
                        take < n <= most ==> !(#[trigger] has_route(routes, creatures[i], parts, n))
                    &&& found.creature_id == creatures[i]
                    &&& found.program_id == route.program_id
                    &&& found.entity_id == route.entity_id
                    &&& found.vm_id == route.pinned_vm_id
                    &&& found.runtime == route.runtime
                    &&& found.path == "/"@ + joined(
                        parts.subrange(take, parts.len() as int),
                        "/"@,
                    )
                },
            None => forall|j: int, n: int|
                0 <= j < creatures.len() && 0 < n <= most ==> !(#[trigger] has_route(
                    routes,
                    creatures[j],
                    parts,
                    n,
                )),
        },
    decreases creatures.len(),
{
    if creatures.len() > 0 {
        let take = longest(routes, creatures[0], parts, most);
        lemma_longest(routes, creatures[0], parts, most);
        if take > 0 {
            assert(has_route(routes, creatures[0], parts, take));
        } else {
            let rest = creatures.subrange(1, creatures.len() as int);
            law_the_first_creature_with_a_route_answers(routes, rest, parts, most);
            match first_route(routes, rest, parts, most) {
                Some(found) => {
                    let (i, n) = choose|i: int, take: int|
                        #![trigger has_route(routes, rest[i], parts, take)]
                        0 <= i < rest.len() && 0 < take <= most && has_route(
                            routes,
                            rest[i],
                            parts,
                            take,
                        ) && {
                            let route = lookup(
                                routes,
                                "vmHttpRoute::"@ + rest[i] + "::"@ + joined(
                                    parts.subrange(0, take),
                                    "/"@,
                                ),
                            )->0;
                            &&& forall|j: int, n: int|
                                0 <= j < i && 0 < n <= most ==> !(#[trigger] has_route(
                                    routes,
                                    rest[j],
                                    parts,
                                    n,
                                ))
                            &&& forall|n: int|
                                take < n <= most ==> !(#[trigger] has_route(
                                    routes,
                                    rest[i],
                                    parts,
                                    n,
                                ))
                            &&& found.creature_id == rest[i]
                            &&& found.program_id == route.program_id
                            &&& found.entity_id == route.entity_id
                            &&& found.vm_id == route.pinned_vm_id
                            &&& found.runtime == route.runtime
                            &&& found.path == "/"@ + joined(
                                parts.subrange(take, parts.len() as int),
                                "/"@,
                            )
                        };
                    assert(rest[i] == creatures[i + 1]);
                    assert(has_route(routes, creatures[i + 1], parts, n));
                    assert forall|j: int, k: int| 0 <= j < i + 1 && 0 < k <= most implies !(
                    #[trigger] has_route(routes, creatures[j], parts, k)) by {
                        if j > 0 {
                            assert(rest[j - 1] == creatures[j]);
                            assert(!has_route(routes, rest[j - 1], parts, k));
                        }
                    }
                },
                None => {
                    assert forall|j: int, k: int| 0 <= j < creatures.len() && 0 < k
                        <= most implies !(#[trigger] has_route(routes, creatures[j], parts, k)) by {
                        if j > 0 {
                            assert(rest[j - 1] == creatures[j]);
                            assert(!has_route(routes, rest[j - 1], parts, k));
                        }
                    }
                },
            }
        }
    }
}

/// A name is tried as a user name, then as a short name, then as an id, each id once.
pub proof fn law_names_are_tried_in_order(
    creatures: CreaturesState,
    routes: RoutesState,
    name: Seq<char>,
)
    ensures
        ({
            let list = candidates(creatures, routes, name);
            let by_name = lookup(creatures.usernames, name);
            let by_short = lookup(routes.aliases, "vmHttpRouteUser::"@ + name);
            let a = by_name is Some && by_name->0.len() > 0;
            let b = by_short is Some && by_short->0.len() > 0;
            &&& list.contains(name)
            &&& a ==> list[0] == by_name->0
            &&& !a && b ==> list[0] == by_short->0
            &&& !a && !b ==> list == seq![name]
            &&& b ==> list.contains(by_short->0)
            &&& a && b && by_name->0 != by_short->0 ==> list[1] == by_short->0
            &&& 1 <= list.len() <= 3
            &&& forall|i: int, j: int| 0 <= i < j < list.len() ==> list[i] != list[j]
        }),
{
    let list = candidates(creatures, routes, name);
    let by_name = lookup(creatures.usernames, name);
    let by_short = lookup(routes.aliases, "vmHttpRouteUser::"@ + name);
    let a = by_name is Some && by_name->0.len() > 0;
    let b = by_short is Some && by_short->0.len() > 0;
    let one = if a {
        seq![by_name->0]
    } else {
        Seq::<Seq<char>>::empty()
    };
    let two = if b && !crate::text::listed(one, by_short->0) {
        one.push(by_short->0)
    } else {
        one
    };
    if a {
        assert(one[0] == by_name->0);
        assert(two[0] == by_name->0);
    }
    if b && !crate::text::listed(one, by_short->0) {
        assert(two[one.len() as int] == by_short->0);
    }
    assert(list == if crate::text::listed(two, name) {
        two
    } else {
        two.push(name)
    });
    if crate::text::listed(two, name) {
        let i = choose|i: int| 0 <= i < two.len() && two[i] == name;
        assert(list[i] == name);
    } else {
        assert(list[two.len() as int] == name);
        assert forall|i: int| 0 <= i < two.len() implies two[i] != name by {}
    }
    if b {
        if crate::text::listed(one, by_short->0) {
            assert(one[0] == by_short->0);
            assert(list[0] == by_short->0);
        } else {
            assert(list[one.len() as int] == by_short->0);
        }
    }
    if !a && !b {
        assert(list =~= seq![name]);
    }
}

/// A request without a name or a path is answered by nobody; every other one by the first creature
/// of its name that has a route for at most as many parts as are looked at.
pub proof fn law_requests_are_resolved_by_name_and_path(
    creatures: CreaturesState,
    routes: RoutesState,
    username: Seq<char>,
    path: Seq<char>,
    max_segments: int,
)
    ensures
        ({
            let name = trimmed(username);
            let parts = nonempty(pieces(path, "/"@));
            let outcome = http_route(creatures, routes, username, path, max_segments);
            &&& name.len() == 0 || parts.len() == 0 ==> outcome is None
            &&& name.len() > 0 && parts.len() > 0 ==> outcome == first_route(
                routes.routes,
                candidates(creatures, routes, name),
                parts,
                if parts.len() <= max_segments {
                    parts.len() as int
                } else {
                    max_segments
                },
            )
        }),
{
}

/// The document of a route tells everything of it.
pub proof fn law_a_route_is_told_whole(route: Resolved)
    ensures
        ({
            let d = route_document(route);
            &&& d.text("creatureId"@) == Some(route.creature_id)
            &&& d.text("programId"@) == Some(route.program_id)
            &&& d.text("entityId"@) == Some(route.entity_id)
            &&& d.text("vmId"@) == Some(route.vm_id)
            &&& d.text("runtime"@) == Some(route.runtime)
            &&& d.text("path"@) == Some(route.path)
        }),
{
    reveal_strlit("creatureId");
    reveal_strlit("programId");
    reveal_strlit("entityId");
    reveal_strlit("vmId");
    reveal_strlit("runtime");
    reveal_strlit("path");
    assert("creatureId"@.len() == 10 && "programId"@.len() == 9 && "entityId"@.len() == 8);
    assert("vmId"@.len() == 4 && "vmId"@[0] == 'v');
    assert("runtime"@.len() == 7);
    assert("path"@.len() == 4 && "path"@[0] == 'p');
}

/// An instance runs as its entity says, where it has one that says anything, and else as its
/// program does.
pub proof fn law_the_runtime_is_that_of_the_entity(
    program_runtime: Seq<char>,
    entity: Seq<char>,
    entity_type: Option<Seq<char>>,
)
    ensures
        entity.len() > 0 && entity_type is Some && trimmed(entity_type->0).len() > 0
            ==> runtime_text(program_runtime, entity, entity_type) == trimmed(entity_type->0),
        entity.len() == 0 || entity_type is None || trimmed(entity_type->0).len() == 0
            ==> runtime_text(program_runtime, entity, entity_type) == trimmed(program_runtime),
{
}

// ---------------------------------------------------------------- calls

/// A call carries what its request says; where it says nothing, it goes to the main entity's
/// signal instance, asks for the root, and gets.
pub proof fn law_calls_carry_their_request(request: Tree, method: Seq<char>, body: Seq<char>)
    ensures
        ({
            let call = http_call(request, method, body);
            let entity = trimmed(request.text_or_empty("entityId"@));
            let vm = trimmed(request.text_or_empty("vmId"@));
            let path = trimmed(request.text_or_empty("path"@));
            let query = trimmed(request.text_or_empty("query"@));
            let asked = trimmed(request.text_or_empty("method"@));
            &&& call.program_id == trimmed(request.text_or_empty("programId"@))
            &&& entity.len() > 0 ==> call.entity_id == entity
            &&& entity.len() == 0 ==> call.entity_id == "main"@
            &&& vm.len() > 0 ==> call.vm_id == vm
            &&& vm.len() == 0 ==> call.vm_id == "signal"@
            &&& path.len() > 0 ==> call.path == path
            &&& path.len() == 0 ==> call.path == "/"@
            &&& query.len() > 0 ==> call.query == Some(query)
            &&& query.len() == 0 ==> call.query is None
            &&& asked.len() > 0 ==> call.method == method
            &&& asked.len() == 0 ==> call.method == "GET"@
            &&& call.body == body
            &&& call.headers == request_headers(request)
        }),
{
}

/// Of the headers of a request, exactly the texts go on.
pub proof fn law_text_headers_go_on(fields: Rows<Tree>, key: Seq<char>)
    requires
        crate::table::distinct(fields),
    ensures
        text_fields(fields).field(key) == (match lookup(fields, key) {
            Some(Tree::Text(text)) => Some(Tree::Text(text)),
            _ => None,
        }),
        text_fields(fields) is Object,
    decreases fields.len(),
{
    if fields.len() > 0 {
        let front = fields.drop_last();
        assert forall|i: int, j: int| 0 <= i < j < front.len() implies #[trigger] front[i].0
            != #[trigger] front[j].0 by {
            assert(fields[i].0 != fields[j].0);
        }
        law_text_headers_go_on(front, key);
        assert(fields =~= front.push(fields.last()));
        crate::table::lemma_lookup_push(front, fields.last(), key);
        crate::table::lemma_row_from(front, key, 0);
        if fields.last().0 == key {
            match crate::table::row_from(front, key, 0) {
                Some(i) => {
                    assert(fields[i].0 != fields[fields.len() - 1].0);
                },
                None => {},
            }
        }
    } else {
        assert(text_fields(fields).field(key) is None);
    }
}

proof fn lemma_answer_words()
    ensures
        "ok"@.len() == 2,
        "status"@.len() == 6,
        "headers"@.len() == 7,
        "bodyBase64"@.len() == 10,
        "error"@.len() == 5,
        "kind"@.len() == 4,
        "creatureId"@.len() == 10,
        "creatureId"@ != "bodyBase64"@,
        "programId"@.len() == 9,
        "entityId"@.len() == 8,
        "method"@.len() == 6,
        "path"@.len() == 4,
        "path"@ != "kind"@,
        "query"@.len() == 5,
        "forwarded"@.len() == 9,
        "forwarded"@ != "programId"@,
        "action"@.len() == 6,
        "data"@.len() == 4,
        "body"@.len() == 4,
{
    reveal_strlit("ok");
    reveal_strlit("status");
    reveal_strlit("headers");
    reveal_strlit("bodyBase64");
    reveal_strlit("error");
    reveal_strlit("kind");
    reveal_strlit("creatureId");
    reveal_strlit("programId");
    reveal_strlit("entityId");
    reveal_strlit("method");
    reveal_strlit("path");
    reveal_strlit("query");
    reveal_strlit("forwarded");
    reveal_strlit("action");
    reveal_strlit("data");
    reveal_strlit("body");
    assert("creatureId"@[0] == 'c' && "bodyBase64"@[0] == 'b');
    assert("path"@[0] == 'p' && "kind"@[0] == 'k');
    assert("forwarded"@[0] == 'f' && "programId"@[0] == 'p');
}

/// The answers of the gateway say whether a request went well, with which status, headers and body,
/// or which error.
pub proof fn law_gateway_answers_say_what_happened(
    status: i64,
    headers: Tree,
    body: Seq<char>,
    error: Seq<char>,
    program: Seq<char>,
    entity: Seq<char>,
)
    ensures
        http_answer(status, headers, body).flag("ok"@),
        http_answer(status, headers, body).whole("status"@) == Some(status),
        http_answer(status, headers, body).field("headers"@) == Some(headers),
        http_answer(status, headers, body).text("bodyBase64"@) == Some(body),
        failed(status, error).field("ok"@) == Some(Tree::Bool(false)),
        failed(status, error).whole("status"@) == Some(status),
        failed(status, error).text("error"@) == Some(error),
        accepted(program, entity).flag("ok"@),
        accepted(program, entity).text("forwarded"@) == Some("signal"@),
        accepted(program, entity).text("programId"@) == Some(program),
        accepted(program, entity).text("entityId"@) == Some(entity),
        request_signal(entity, body).text("action"@) == Some("single"@),
        request_signal(entity, body).text("entityId"@) == Some(entity),
        request_signal(entity, body).text("data"@) == Some(body),
        signal_response(body).flag("ok"@),
        signal_response(body).whole("status"@) == Some(202i64),
        signal_response(body).text("body"@) == Some(body),
{
    lemma_answer_words();
}

/// A request that is signalled to a program carries everything that was asked for.
#[verifier::rlimit(30)]
pub proof fn law_signalled_requests_are_whole(request: Tree)
    ensures
        ({
            let d = signalled_request(request);
            &&& d.text("kind"@) == Some("httpRequest"@)
            &&& d.text("creatureId"@) == Some(request.text_or_empty("creatureId"@))
            &&& d.text("programId"@) == Some(trimmed(request.text_or_empty("programId"@)))
            &&& d.text("entityId"@) == Some(trimmed(request.text_or_empty("entityId"@)))
            &&& request.text("method"@) is Some ==> d.text("method"@) == request.text("method"@)
            &&& request.text("method"@) is None ==> d.text("method"@) == Some("GET"@)
            &&& request.text("path"@) is Some ==> d.text("path"@) == request.text("path"@)
            &&& request.text("path"@) is None ==> d.text("path"@) == Some("/"@)
            &&& d.text("query"@) == Some(request.text_or_empty("query"@))
            &&& request.field("headers"@) is Some ==> d.field("headers"@) == request.field(
                "headers"@,
            )
            &&& d.text("bodyBase64"@) == Some(request.text_or_empty("bodyBase64"@))
        }),
{
    lemma_answer_words();
}

// ---------------------------------------------------------------- files and handovers

/// A file is served exactly where it is there and its digest is the one asked for.
pub proof fn law_files_are_served_by_their_digest(bytes: Option<Seq<u8>>, digest: Seq<char>)
    ensures
        (artifact_served(bytes, digest) is Some) == (bytes is Some && digest_of(bytes->0)
            == digest),
        artifact_served(bytes, digest) is Some ==> artifact_served(bytes, digest) == bytes,
{
}

/// A key is served exactly where it was found.
pub proof fn law_found_keys_are_served(found: Result<Option<Seq<u8>>, Seq<char>>)
    ensures
        (served_key(found) is Ok) == (found is Ok && found->Ok_0 is Some),
        served_key(found) matches Ok(key) ==> found == Ok::<Option<Seq<u8>>, Seq<char>>(Some(key)),
        found matches Err(e) ==> served_key(found) == Err::<Seq<u8>, Seq<char>>(e),
{
}

/// What is handed over is launched in its order: the next adopted instance, where its runtime is
/// recorded; where it is not, the handover is refused; and the records go once none is left.
pub proof fn law_the_next_adopted_instance_is_launched(list: Seq<Handoff>, from: int)
    requires
        0 <= from <= list.len(),
    ensures
        match step_from(list, from) {
            NextStep::Launch { index } => from <= index < list.len() && list[index].adopt
                && list[index].runtime.len() > 0 && forall|i: int|
                from <= i < index ==> !(#[trigger] list[i]).adopt,
            NextStep::RemoveRecords => forall|i: int|
                from <= i < list.len() ==> !(#[trigger] list[i]).adopt,
            NextStep::Refuse { .. } => exists|index: int|
                from <= index < list.len() && (#[trigger] list[index]).adopt
                    && list[index].runtime.len() == 0 && forall|i: int|
                    from <= i < index ==> !(#[trigger] list[i]).adopt,
        },
    decreases list.len() - from,
{
    if from < list.len() {
        if list[from].adopt {
            assert(list[from].adopt);
        } else {
            law_the_next_adopted_instance_is_launched(list, from + 1);
        }
    }
}

/// A handover begins at its first instance, goes on after the one that was launched, and ends where
/// one could not be.
pub proof fn law_a_handover_goes_on_after_each_launch(list: Seq<Handoff>, event: HandoffEvent)
    ensures
        event is Checked ==> handed_over(list, event) == step_from(list, 0),
        event matches HandoffEvent::Launched { index } ==> handed_over(list, event) == step_from(
            list,
            index + 1,
        ),
        event matches HandoffEvent::Failed { reason } ==> handed_over(list, event) == (
        NextStep::Refuse { reason: reason@ }),
{
}

} // verus!
