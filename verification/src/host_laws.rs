//! What guests keep, call and log, and what the storage endpoint understands.
use vstd::prelude::*;

use crate::creature::directory::CreaturesState;
use crate::guest_data::{
    guest_refusal, pair_answer, pair_operation, runtime_key, state_answer, state_operation,
    Namespace, Outcome,
};
use crate::host::{
    all_changed, all_routed, callback_route, changed, done_or_error, flag_field, follower,
    hosting_program, logged, stamped_call, texts_among, typed, vm_ownership, Change, Routed,
};
use crate::json::Tree;
use crate::outside::{json_text, parsed_json};
use crate::storage_http::{asked, content_told, header_pair, reason, upload_refusal};
use crate::table::{law_lookup_after_drop, law_lookup_after_store, lookup, Rows};
use crate::text::{cut, has_prefix, has_suffix, holds_text, pieces, trimmed};

verus! {

broadcast use law_lookup_after_store;

// ---------------------------------------------------------------- changes of guests

/// A change puts or takes its key and leaves every other alone; one of another kind does nothing.
pub proof fn law_a_change_is_made_under_its_key(
    links: Rows<Seq<char>>,
    change: Change,
    other: Seq<char>,
)
    ensures
        change.op == "put"@ ==> lookup(changed(links, change), change.key) == Some(change.val),
        change.op == "del"@ ==> lookup(changed(links, change), change.key) is None,
        change.op != "put"@ && change.op != "del"@ ==> changed(links, change) == links,
        other != change.key ==> lookup(changed(links, change), other) == lookup(links, other),
{
    reveal_strlit("put");
    reveal_strlit("del");
    assert("put"@[0] == 'p' && "del"@[0] == 'd');
    law_lookup_after_drop(links, change.key, change.key);
    law_lookup_after_drop(links, change.key, other);
}

/// Where creatures have their own databases, exactly the changes under keys that name one go there,
/// in their order, and the others are made here; elsewhere all are made here.
pub proof fn law_changes_go_to_their_creature(
    own_databases: bool,
    links: Rows<Seq<char>>,
    ops: Seq<Change>,
    last: Change,
)
    ensures
        ({
            let all = ops.push(last);
            let theirs = own_databases && (cut(last.key, "::"@) matches Some((creature, _))
                && holds_text(creature, "@"@));
            let (creature, rest) = cut(last.key, "::"@)->0;
            &&& theirs ==> all_changed(own_databases, links, all) == all_changed(
                own_databases,
                links,
                ops,
            )
            &&& theirs ==> all_routed(own_databases, all) == all_routed(own_databases, ops).push(
                Routed {
                    creature,
                    op: last.op,
                    key: rest,
                    val: last.val,
                },
            )
            &&& !theirs ==> all_changed(own_databases, links, all) == changed(
                all_changed(own_databases, links, ops),
                last,
            )
            &&& !theirs ==> all_routed(own_databases, all) == all_routed(own_databases, ops)
        }),
{
    let all = ops.push(last);
    assert(all.drop_last() =~= ops);
    assert(all.last() == last);
}

/// No changes change nothing.
pub proof fn law_no_changes_change_nothing(own_databases: bool, links: Rows<Seq<char>>)
    ensures
        all_changed(own_databases, links, Seq::empty()) == links,
        all_routed(own_databases, Seq::empty()).len() == 0,
{
}

/// The texts among values are exactly those values that are texts, in their order.
pub proof fn law_texts_are_told_in_order(items: Seq<Tree>, last: Tree)
    ensures
        last matches Tree::Text(text) ==> texts_among(items.push(last)) == texts_among(items).push(
            text,
        ),
        !(last is Text) ==> texts_among(items.push(last)) == texts_among(items),
        texts_among(Seq::empty()).len() == 0,
{
    assert(items.push(last).drop_last() =~= items);
}

/// A flag is true as such, or as the word or number for it.
pub proof fn law_flags_are_read(input: Tree, key: Seq<char>, default: bool)
    ensures
        input.field(key) == Some(Tree::Bool(true)) ==> flag_field(input, key, default),
        input.field(key) == Some(Tree::Bool(false)) ==> !flag_field(input, key, default),
        input.text(key) == Some("true"@) || input.text(key) == Some("1"@) ==> flag_field(
            input,
            key,
            default,
        ),
        input.text(key) matches Some(text) ==> (text != "true"@ && text != "1"@ ==> !flag_field(
            input,
            key,
            default,
        )),
        input.field(key) is None ==> flag_field(input, key, default) == default,
{
}

// ---------------------------------------------------------------- callbacks and calls

/// A callback goes by its key; one whose key is not known is refused.
pub proof fn law_callbacks_go_by_their_key(key: Seq<char>)
    ensures
        callback_route("terminateVm"@) is TerminateVm,
        callback_route("plantTrigger"@) is PlantTrigger,
        callback_route("signal"@) is Signal,
        callback_route("log"@) is Log,
        callback_route("vmLog"@) is Log,
        callback_route("buildLog"@) is Log,
        callback_route("output"@) is Log,
        callback_route("vmOutput"@) is Log,
        key != "terminateVm"@ && key != "plantTrigger"@ && key != "signal"@ && key != "log"@ && key
            != "vmLog"@ && key != "buildLog"@ && key != "output"@ && key != "vmOutput"@
            ==> callback_route(key) is Refused,
{
    reveal_strlit("terminateVm");
    reveal_strlit("plantTrigger");
    reveal_strlit("signal");
    reveal_strlit("log");
    reveal_strlit("vmLog");
    reveal_strlit("buildLog");
    reveal_strlit("output");
    reveal_strlit("vmOutput");
    assert("terminateVm"@[0] == 't' && "plantTrigger"@[0] == 'p' && "signal"@[0] == 's');
    assert("log"@[0] == 'l' && "vmLog"@[0] == 'v' && "buildLog"@[0] == 'b');
    assert("output"@[0] == 'o' && "vmOutput"@[0] == 'v');
}

/// A guest's call is stamped with the program, entity and instance that made it, whatever it says
/// itself, and carries its operation and input.
#[verifier::rlimit(30)]
pub proof fn law_calls_are_stamped_with_their_caller(
    op: Seq<char>,
    input: Tree,
    program: Seq<char>,
    entity: Seq<char>,
    instance: Seq<char>,
)
    ensures
        ({
            let call = stamped_call(op, input, program, entity, instance);
            &&& call.text("type"@) == Some("hostCall"@)
            &&& call.text("op"@) == Some(op)
            &&& call.field("input"@) == Some(input)
            &&& call.text("creatureId"@) == Some(program)
            &&& call.text("programId"@) == Some(program)
            &&& call.text("machineId"@) == Some(program)
            &&& call.text("entityId"@) == Some(entity)
            &&& call.text("vmId"@) == Some(instance)
        }),
{
    reveal_strlit("type");
    reveal_strlit("op");
    reveal_strlit("input");
    reveal_strlit("creatureId");
    reveal_strlit("programId");
    reveal_strlit("machineId");
    reveal_strlit("entityId");
    reveal_strlit("vmId");
    assert("type"@.len() == 4 && "type"@[0] == 't');
    assert("op"@.len() == 2 && "input"@.len() == 5 && "creatureId"@.len() == 10);
    assert("programId"@.len() == 9 && "programId"@[0] == 'p');
    assert("machineId"@.len() == 9 && "machineId"@[0] == 'm');
    assert("entityId"@.len() == 8);
    assert("vmId"@.len() == 4 && "vmId"@[0] == 'v');
}

/// An input gets its kind where it is an object, and keeps its other fields.
pub proof fn law_inputs_get_their_kind(input: Tree, kind: Seq<char>, key: Seq<char>)
    ensures
        input is Object ==> typed(input, kind).text("type"@) == Some(kind) && (key != "type"@
            ==> typed(input, kind).field(key) == input.field(key)),
        !(input is Object) ==> typed(input, kind) == input,
{
}

/// What was done is told, or why it was not.
pub proof fn law_outcomes_are_told(e: Seq<char>)
    ensures
        done_or_error(Ok(())).flag("ok"@),
        done_or_error(Err(e)).field("ok"@) == Some(Tree::Bool(false)),
        done_or_error(Err(e)).text("error"@) == Some(e),
{
    reveal_strlit("ok");
    reveal_strlit("error");
    assert("ok"@.len() == 2 && "error"@.len() == 5);
}

/// A line is logged exactly where it says something of an instance: its text or else its data, under
/// its kind or else as one of the runtime.
pub proof fn law_lines_of_instances_are_logged(input: Tree)
    ensures
        ({
            let text = if input.text_or_empty("text"@).len() > 0 {
                input.text_or_empty("text"@)
            } else {
                input.text_or_empty("data"@)
            };
            let vm = input.text_or_empty("vmId"@);
            let kind = input.text_or_empty("logType"@);
            &&& (logged(input) is Some) == (text.len() > 0 && vm.len() > 0)
            &&& logged(input) matches Some(line) ==> {
                &&& line.vm_id == vm
                &&& line.text == text
                &&& kind.len() > 0 ==> line.log_type == kind
                &&& kind.len() == 0 ==> line.log_type == "runtime"@
            }
        }),
{
}

/// An instance belongs to the program of the first link that ends with it, and to the owner of that
/// program's machine; one without such a link belongs to nobody.
pub proof fn law_instances_belong_to_the_program_that_links_them(
    links: Seq<Seq<char>>,
    machines: Rows<Seq<char>>,
    creatures: CreaturesState,
    vm: Seq<char>,
    i: int,
)
    requires
        vm.len() > 0,
        0 <= i < links.len(),
        has_suffix(links[i], "::"@ + vm),
        pieces(links[i], "::"@).len() >= 4,
        forall|j: int|
            0 <= j < i ==> !(has_suffix(#[trigger] links[j], "::"@ + vm) && pieces(
                links[j],
                "::"@,
            ).len() >= 4),
    ensures
        ({
            let program = pieces(links[i], "::"@)[1];
            let (of, owner) = vm_ownership(links, machines, creatures, vm);
            &&& of == program
            &&& owner == (match lookup(machines, program) {
                Some(machine) => match lookup(creatures.records, machine) {
                    Some(record) => record.owner_id,
                    None => Seq::empty(),
                },
                None => Seq::empty(),
            })
        }),
{
    lemma_hosting(links, vm, i);
}

proof fn lemma_hosting(links: Seq<Seq<char>>, vm: Seq<char>, i: int)
    requires
        0 <= i < links.len(),
        has_suffix(links[i], "::"@ + vm),
        pieces(links[i], "::"@).len() >= 4,
        forall|j: int|
            0 <= j < i ==> !(has_suffix(#[trigger] links[j], "::"@ + vm) && pieces(
                links[j],
                "::"@,
            ).len() >= 4),
    ensures
        hosting_program(links, vm) == Some(pieces(links[i], "::"@)[1]),
    decreases links.len(),
{
    if i > 0 {
        let rest = links.subrange(1, links.len() as int);
        assert(rest[i - 1] == links[i]);
        assert(!(has_suffix(links[0], "::"@ + vm) && pieces(links[0], "::"@).len() >= 4));
        assert forall|j: int| 0 <= j < i - 1 implies !(has_suffix(#[trigger] rest[j], "::"@ + vm)
            && pieces(rest[j], "::"@).len() >= 4) by {
            assert(rest[j] == links[j + 1]);
        }
        lemma_hosting(rest, vm, i - 1);
    }
}

/// The output of an instance is followed by its owner exactly where they opened a terminal on it.
pub proof fn law_owners_follow_through_open_terminals(
    links: Rows<Seq<char>>,
    creature: Seq<char>,
    vm: Seq<char>,
    owner: Seq<char>,
)
    ensures
        (follower(links, creature, vm, owner) == Some(owner)) == (owner.len() > 0 && lookup(
            links,
            "VmTerminal::"@ + creature + "::"@ + vm + "::"@ + owner,
        ) == Some("true"@)),
        follower(links, creature, vm, owner) matches Some(who) ==> who == owner,
{
    reveal_strlit("true");
    assert("true"@.len() == 4);
}

// ---------------------------------------------------------------- guest data

proof fn lemma_ops()
    ensures
        "putJson"@ != "getJson"@,
        "putJson"@ != "getByPrefix"@,
        "putJson"@ != "delKey"@,
        "putJson"@ != "getLink"@,
        "getJson"@ != "getByPrefix"@,
        "getJson"@ != "delKey"@,
        "getJson"@ != "getLink"@,
        "getByPrefix"@ != "delKey"@,
        "getByPrefix"@ != "getLink"@,
        "delKey"@ != "getLink"@,
        "put"@ != "get"@,
        "put"@ != "del"@,
        "get"@ != "del"@,
        "put"@ != "getByPrefix"@,
        "get"@ != "getByPrefix"@,
        "del"@ != "getByPrefix"@,
{
    reveal_strlit("putJson");
    reveal_strlit("getJson");
    reveal_strlit("getByPrefix");
    reveal_strlit("delKey");
    reveal_strlit("getLink");
    reveal_strlit("put");
    reveal_strlit("get");
    reveal_strlit("del");
    assert("putJson"@[0] == 'p' && "putJson"@.len() == 7);
    assert("getJson"@[0] == 'g' && "getJson"@[3] == 'J' && "getJson"@.len() == 7);
    assert("getByPrefix"@[0] == 'g' && "getByPrefix"@.len() == 11);
    assert("delKey"@[0] == 'd' && "delKey"@.len() == 6);
    assert("getLink"@[0] == 'g' && "getLink"@[3] == 'L' && "getLink"@.len() == 7);
    assert("put"@[0] == 'p' && "put"@.len() == 3);
    assert("get"@[0] == 'g' && "get"@.len() == 3);
    assert("del"@[0] == 'd' && "del"@.len() == 3);
}

/// A document call asks for what its operation says: to put, read or delete the document under its
/// key and path, to list what begins with a prefix, or to read a link. Every one of a single
/// document needs a key.
pub proof fn law_document_calls_ask_for_their_operation(input: Tree, limit: usize)
    ensures
        ({
            let key = input.text_or_empty("key"@);
            let path = input.text_or_empty("path"@);
            let data = match input.field("data"@) {
                Some(value) => value,
                None => Tree::Null,
            };
            let merge = !(input.field("merge"@) == Some(Tree::Bool(false)));
            &&& key.len() == 0 ==> state_operation("putJson"@, input, limit) is Err
                && state_operation("getJson"@, input, limit) is Err && state_operation(
                "delKey"@,
                input,
                limit,
            ) is Err && state_operation("getLink"@, input, limit) is Err
            &&& key.len() > 0 ==> {
                &&& state_operation("putJson"@, input, limit) == Ok::<
                    crate::guest_data::Asked,
                    Seq<char>,
                >(crate::guest_data::Asked::PutJson { key, path, data: json_text(data), merge })
                &&& state_operation("getJson"@, input, limit) == Ok::<
                    crate::guest_data::Asked,
                    Seq<char>,
                >(crate::guest_data::Asked::GetJson { key, path })
                &&& state_operation("delKey"@, input, limit) == Ok::<
                    crate::guest_data::Asked,
                    Seq<char>,
                >(crate::guest_data::Asked::DeleteJson { key, path })
                &&& state_operation("getLink"@, input, limit) == Ok::<
                    crate::guest_data::Asked,
                    Seq<char>,
                >(crate::guest_data::Asked::Get { namespace: Namespace::DbOp, key })
            }
            &&& state_operation("getByPrefix"@, input, limit) == Ok::<
                crate::guest_data::Asked,
                Seq<char>,
            >(
                crate::guest_data::Asked::ListJson {
                    prefix: input.text_or_empty("prefix"@),
                    limit,
                },
            )
        }),
{
    lemma_ops();
}

/// A call on pairs asks for what its operation says.
pub proof fn law_pair_calls_ask_for_their_operation(
    namespace: Namespace,
    op: Seq<char>,
    key: Seq<char>,
    value: Seq<char>,
    prefix: Seq<char>,
    limit: usize,
)
    ensures
        op == "put"@ ==> pair_operation(namespace, op, key, value, prefix, limit) == Ok::<
            crate::guest_data::Asked,
            Seq<char>,
        >(crate::guest_data::Asked::Put { namespace, key, value }),
        op == "get"@ ==> pair_operation(namespace, op, key, value, prefix, limit) == Ok::<
            crate::guest_data::Asked,
            Seq<char>,
        >(crate::guest_data::Asked::Get { namespace, key }),
        op == "del"@ ==> pair_operation(namespace, op, key, value, prefix, limit) == Ok::<
            crate::guest_data::Asked,
            Seq<char>,
        >(crate::guest_data::Asked::Delete { namespace, key }),
        op == "getByPrefix"@ ==> pair_operation(namespace, op, key, value, prefix, limit) == Ok::<
            crate::guest_data::Asked,
            Seq<char>,
        >(crate::guest_data::Asked::List { namespace, prefix, limit }),
        op != "put"@ && op != "get"@ && op != "del"@ && op != "getByPrefix"@ ==> pair_operation(
            namespace,
            op,
            key,
            value,
            prefix,
            limit,
        ) is Err,
{
    lemma_ops();
}

/// Guest data is kept exactly for a known creature whose database is active.
pub proof fn law_guest_data_needs_an_active_creature(creature: Seq<char>, active: bool)
    ensures
        (guest_refusal(creature, active) is None) == (trimmed(creature).len() > 0 && active),
{
}

/// What was read is told: a document, keys, a value or values; nothing is told as the empty text.
pub proof fn law_guest_answers_tell_what_was_read(
    data: Seq<char>,
    list: Seq<Seq<char>>,
    value: Option<Seq<char>>,
    i: int,
)
    ensures
        state_answer(Outcome::Document { data }).flag("ok"@),
        parsed_json(data) matches Ok(document) ==> state_answer(Outcome::Document { data }).field(
            "data"@,
        ) == Some(document),
        state_answer(Outcome::Keys { keys: list }).flag("ok"@),
        state_answer(Outcome::Keys { keys: list }).items("data"@) matches Some(items) && items.len()
            == list.len() && (0 <= i < items.len() ==> items[i] == Tree::Text(list[i])),
        value matches Some(text) ==> state_answer(Outcome::Value { value }).text("value"@) == Some(
            text,
        ) && pair_answer(Outcome::Value { value }).text("data"@) == Some(text),
        value is None ==> state_answer(Outcome::Value { value }).text_or_empty("value"@).len() == 0
            && pair_answer(Outcome::Value { value }).text_or_empty("data"@).len() == 0,
        pair_answer(Outcome::Listed { values: list }).items("data"@) matches Some(items)
            && items.len() == list.len() && (0 <= i < items.len() ==> items[i] == Tree::Text(
            list[i],
        )),
{
    reveal_strlit("ok");
    reveal_strlit("data");
    reveal_strlit("value");
    assert("ok"@.len() == 2 && "data"@.len() == 4 && "value"@.len() == 5);
}

/// A key belongs to a creature exactly where its first part names one.
pub proof fn law_keys_name_their_creature(key: Seq<char>)
    ensures
        runtime_key(key) matches Some((creature, rest)) ==> cut(key, "::"@) == Some(
            (creature, rest),
        ) && holds_text(creature, "@"@),
        runtime_key(key) is None ==> (cut(key, "::"@) matches Some((creature, _)) ==> !holds_text(
            creature,
            "@"@,
        )),
{
}

// ---------------------------------------------------------------- the storage endpoint

/// The storage endpoint tells its health, takes files and gives them, each by its method and path,
/// and knows nothing else.
pub proof fn law_the_storage_endpoint_has_three_routes(method: Seq<char>, id: Seq<char>)
    ensures
        asked("GET"@, "/storage/health"@) is Health,
        asked("POST"@, "/storage/upload"@) is Upload,
        asked("PUT"@, "/storage/upload"@) is Upload,
        asked("GET"@, "/storage/file/"@ + id) == (crate::storage_http::Asked::File {
            id,
            head_only: false,
        }),
        asked("HEAD"@, "/storage/file/"@ + id) == (crate::storage_http::Asked::File {
            id,
            head_only: true,
        }),
        method != "GET"@ && method != "HEAD"@ && method != "POST"@ && method != "PUT"@ ==> asked(
            method,
            "/storage/file/"@ + id,
        ) is NotFound,
        asked("DELETE"@, "/storage/upload"@) is NotFound,
{
    reveal_strlit("GET");
    reveal_strlit("POST");
    reveal_strlit("PUT");
    reveal_strlit("HEAD");
    reveal_strlit("DELETE");
    reveal_strlit("/storage/health");
    reveal_strlit("/storage/upload");
    reveal_strlit("/storage/file/");
    let files = "/storage/file/"@;
    let path = files + id;
    assert("GET"@[0] == 'G' && "POST"@[0] == 'P' && "PUT"@[0] == 'P' && "HEAD"@[0] == 'H');
    assert("POST"@.len() == 4 && "PUT"@.len() == 3 && "HEAD"@.len() == 4 && "GET"@.len() == 3);
    assert("DELETE"@.len() == 6);
    assert(path[9] == 'f' && "/storage/health"@[9] == 'h' && "/storage/upload"@[9] == 'u');
    assert(path.subrange(0, files.len() as int) =~= files);
    assert(has_prefix(path, files));
    assert(path.subrange(files.len() as int, path.len() as int) =~= id);
    assert(!has_prefix("/storage/upload"@, files)) by {
        if has_prefix("/storage/upload"@, files) {
            assert("/storage/upload"@.subrange(0, files.len() as int)[9] == files[9]);
        }
    }
}

/// An upload is taken exactly where it has something in it and is not too large; an empty one and
/// one too large are told apart.
pub proof fn law_uploads_of_bounded_length_are_taken(length: int, max_bytes: int)
    requires
        length >= 0,
        max_bytes >= 0,
    ensures
        (upload_refusal(length, max_bytes) is None) == (0 < length <= max_bytes),
        length == 0 ==> (upload_refusal(length, max_bytes) matches Some((status, _)) && status
            == 400),
        length > max_bytes ==> (upload_refusal(length, max_bytes) matches Some((status, _)) && (
        status == 413 || length == 0)),
{
}

/// The last header of each kind tells the length and the type of what is sent; the others tell
/// neither.
pub proof fn law_the_last_headers_tell_the_content(lines: Seq<Seq<char>>, line: Seq<char>)
    ensures
        ({
            let before = content_told(lines);
            let after = content_told(lines.push(line));
            let pair = header_pair(line);
            let (name, value) = pair->0;
            let length = pair is Some && name == "content-length"@;
            let kind = pair is Some && name == "content-type"@;
            &&& content_told(Seq::empty()).0 == 0 && content_told(Seq::empty()).1.len() == 0
            &&& length ==> after.1 == before.1 && after.0 == (
            match crate::decimal::read_count(value) {
                Some(n) => n,
                None => 0,
            })
            &&& kind ==> after.0 == before.0 && after.1 == value
            &&& !length && !kind ==> after == before
        }),
{
    reveal_strlit("content-length");
    reveal_strlit("content-type");
    assert("content-length"@.len() == 14 && "content-type"@.len() == 12);
    assert(lines.push(line).drop_last() =~= lines);
}

/// Each status has its reason.
pub proof fn law_statuses_have_their_reasons(status: u16)
    ensures
        reason(200) == "OK"@,
        reason(400) == "Bad Request"@,
        reason(404) == "Not Found"@,
        reason(413) == "Payload Too Large"@,
        reason(500) == "Internal Server Error"@,
        status != 400 && status != 404 && status != 413 && status != 500 ==> reason(status)
            == "OK"@,
{
}

} // verus!
