//! Who may call which action, what telemetry answers, and how records are extended.
use vstd::prelude::*;

use crate::actions::{lets_pass, registered, Guard};
use crate::json::Tree;
use crate::models::{
    command_document, extended, field_value, message_document, update_document, update_read,
    FieldState, UpdateState,
};
use crate::outside::base64_text;
use crate::startup::{deployed_machine, deployed_machines};
use crate::table::{law_lookup_after_store, lookup, Rows};
use crate::telemetry::{
    answer_body, database_at, fetch_target, headers_end_at, still_fresh, telemetry_route,
};
use crate::text::{cut, has_prefix, has_suffix, holds_text, listed, trimmed, words_of};

verus! {

broadcast use law_lookup_after_store;

// ---------------------------------------------------------------- actions

/// A call passes exactly where its action needs no user or has one, and needs no member or the
/// caller belongs to the store.
pub proof fn law_guards_let_users_and_members_pass(
    guard: Guard,
    links: Rows<Seq<char>>,
    caller: Seq<char>,
    store: Seq<char>,
)
    ensures
        lets_pass(guard, links, caller, store) == {
            &&& !guard.is_user || caller.len() > 0
            &&& !guard.is_in_store || lookup(
                links,
                "hasaccess::"@ + caller + "::"@ + store,
            ) == Some("true"@)
        },
{
    reveal_strlit("true");
    assert("true"@.len() == 4);
}

/// Every action of a list is registered with its guard, the last one where it is listed twice, and
/// those not listed stay.
pub proof fn law_listed_actions_are_registered(
    actions: Rows<Guard>,
    list: Seq<(Seq<char>, Guard)>,
    last: (Seq<char>, Guard),
    other: Seq<char>,
)
    ensures
        lookup(registered(actions, list.push(last)), last.0) == Some(last.1),
        other != last.0 ==> lookup(registered(actions, list.push(last)), other) == lookup(
            registered(actions, list),
            other,
        ),
        registered(actions, Seq::empty()) == actions,
{
    assert(list.push(last).drop_last() =~= list);
}

// ---------------------------------------------------------------- telemetry

/// The telemetry database is the one configured, or else stands under the root, or else here.
pub proof fn law_the_telemetry_database_stands_under_the_root(
    configured: Seq<char>,
    root: Seq<char>,
)
    ensures
        trimmed(configured).len() > 0 ==> database_at(configured, root) == configured,
        trimmed(configured).len() == 0 && trimmed(root).len() > 0 && has_suffix(root, "/"@)
            ==> database_at(configured, root) == root + "telemetry-rocks"@,
        trimmed(configured).len() == 0 && trimmed(root).len() > 0 && !has_suffix(root, "/"@)
            ==> database_at(configured, root) == root + "/"@ + "telemetry-rocks"@,
{
}

/// The telemetry endpoint tells its health and gives snapshots, and knows nothing else.
pub proof fn law_the_telemetry_endpoint_has_two_routes(line: Seq<char>)
    ensures
        ({
            let parts = words_of(line);
            &&& (telemetry_route(line) is None) == (parts.len() < 2)
            &&& parts.len() >= 2 && parts[1] == "/telemetry/health"@ ==> telemetry_route(line)->0
                is Health
            &&& parts.len() >= 2 && parts[1] == "/telemetry/snapshot"@ ==> telemetry_route(line)->0
                is Snapshot
            &&& parts.len() >= 2 && parts[1] != "/telemetry/health"@ && parts[1]
                != "/telemetry/snapshot"@ ==> telemetry_route(line)->0 is NotFound
        }),
{
    reveal_strlit("/telemetry/health");
    reveal_strlit("/telemetry/snapshot");
    assert("/telemetry/health"@.len() == 17 && "/telemetry/snapshot"@.len() == 19);
}

/// A snapshot is fresh for two seconds.
pub proof fn law_snapshots_are_fresh_for_two_seconds(taken: i64, now: i64)
    ensures
        still_fresh(Some(taken), now) == (now < taken + 2000),
        !still_fresh(None, now),
{
}

/// A document is fetched over plain HTTP alone, from the authority and the path of its address.
pub proof fn law_documents_are_fetched_over_http(url: Seq<char>)
    ensures
        (fetch_target(url) is Ok) == (trimmed(url).len() > 0 && !holds_text(url, "127.0.0.1:/"@)
            && has_prefix(url, "http://"@)),
        fetch_target(url) matches Ok((authority, path)) ==> {
            let rest = url.subrange("http://"@.len() as int, url.len() as int);
            &&& path.len() > 0 && path[0] == '/'
            &&& cut(rest, "/"@) is None ==> authority == rest && path == "/"@
            &&& cut(rest, "/"@) is Some ==> rest == authority + path
        },
{
    reveal_strlit("/");
    assert("/"@.len() == 1 && "/"@[0] == '/');
    if has_prefix(url, "http://"@) {
        let rest = url.subrange("http://"@.len() as int, url.len() as int);
        crate::text_laws::law_cutting_takes_the_first_separator(rest, "/"@);
        if let Some((a, b)) = cut(rest, "/"@) {
            assert(a + "/"@ + b =~= a + ("/"@ + b));
        }
    }
}

/// The body of an answer is what stands behind its first blank line; an answer without one is all
/// body.
pub proof fn law_the_body_stands_behind_the_first_blank_line(bytes: Seq<u8>, i: int)
    ensures
        headers_end_at(bytes, i) && (forall|j: int| j < i ==> !headers_end_at(bytes, j))
            ==> answer_body(bytes) == bytes.subrange(i + 4, bytes.len() as int),
        (forall|j: int| !headers_end_at(bytes, j)) ==> answer_body(bytes) == bytes,
{
    if headers_end_at(bytes, i) && (forall|j: int| j < i ==> !headers_end_at(bytes, j)) {
        let first = choose|i: int|
            headers_end_at(bytes, i) && forall|j: int| j < i ==> !headers_end_at(bytes, j);
        assert(headers_end_at(bytes, first));
        assert(!(first < i));
        assert(!(i < first));
    }
}

// ---------------------------------------------------------------- models

/// The documents of a command, a message and an update say what they are of.
pub proof fn law_documents_say_what_they_are_of(
    value: Seq<char>,
    data: Seq<char>,
    update: UpdateState,
)
    ensures
        command_document(value, data).text("Value"@) == Some(value),
        command_document(value, data).text("Data"@) == Some(data),
        message_document(value).text("message"@) == Some(value),
        update_document(update).text("type"@) == Some(update.typ),
        update_document(update).text("key"@) == Some(update.key),
        update_document(update).text("val"@) == Some(base64_text(update.val)),
        update_read(update_document(update), Ok(update.val)) == Some(update),
{
    reveal_strlit("Value");
    reveal_strlit("Data");
    reveal_strlit("message");
    reveal_strlit("type");
    reveal_strlit("key");
    reveal_strlit("val");
    assert("Value"@.len() == 5 && "Data"@.len() == 4);
    assert("type"@.len() == 4 && "key"@.len() == 3 && "val"@.len() == 3);
    assert("key"@[0] == 'k' && "val"@[0] == 'v');
}

/// An update is read exactly where it has a type and a key, and its value, where it has one, was
/// decoded.
pub proof fn law_updates_with_type_and_key_are_read(json: Tree, val: Result<Seq<u8>, Seq<char>>)
    ensures
        (update_read(json, val) is Some) == (json.text("type"@) is Some && json.text("key"@) is Some
            && (json.field("val"@) is None || json.text("val"@) is Some && val is Ok)),
        update_read(json, val) matches Some(update) ==> {
            &&& json.text("type"@) == Some(update.typ)
            &&& json.text("key"@) == Some(update.key)
            &&& json.field("val"@) is Some ==> val == Ok::<Seq<u8>, Seq<char>>(update.val)
            &&& json.field("val"@) is None ==> update.val.len() == 0
        },
{
}

/// A field has its computed value, or else what stands at its path, or else its default.
pub proof fn law_fields_have_the_nearest_value(field: FieldState)
    ensures
        field.computed matches Some(value) ==> field_value(field) == value,
        field.computed is None && field.at_path is Some && field.at_path->0.field(field.key) is Some
            ==> field_value(field) == field.at_path->0.field(field.key)->0,
        field.computed is None && (field.at_path is None || field.at_path->0.field(field.key)
            is None) ==> field_value(field) == field.default,
{
}

/// A record keeps every field that is not one of the extended ones.
pub proof fn law_extending_keeps_other_fields(
    record: Tree,
    fields: Seq<FieldState>,
    key: Seq<char>,
)
    requires
        forall|i: int| 0 <= i < fields.len() ==> (#[trigger] fields[i]).key != key,
    ensures
        extended(record, fields).field(key) == record.field(key),
    decreases fields.len(),
{
    if fields.len() > 0 {
        let front = fields.drop_last();
        assert forall|i: int| 0 <= i < front.len() implies (#[trigger] front[i]).key != key by {
            assert(front[i] == fields[i]);
        }
        assert(fields[fields.len() - 1].key != key);
        law_extending_keeps_other_fields(record, front, key);
    }
}

// ---------------------------------------------------------------- starting

/// Every machine that a key names has a listener, and nobody else.
pub proof fn law_every_deployed_machine_is_listened_for(keys: Seq<Seq<char>>, machine: Seq<char>)
    ensures
        deployed_machines(keys).contains(machine) == (machine.len() > 0 && exists|i: int|
            0 <= i < keys.len() && deployed_machine(#[trigger] keys[i]) == machine),
    decreases keys.len(),
{
    if keys.len() > 0 {
        let front = keys.drop_last();
        law_every_deployed_machine_is_listened_for(front, machine);
        let before = deployed_machines(front);
        let all = deployed_machines(keys);
        let last = deployed_machine(keys.last());
        if before.contains(machine) {
            let i = choose|i: int| 0 <= i < before.len() && before[i] == machine;
            assert(all[i] == machine);
            let k = choose|k: int|
                0 <= k < front.len() && deployed_machine(#[trigger] front[k]) == machine;
            assert(keys[k] == front[k]);
        }
        if last == machine {
            assert(deployed_machine(keys[keys.len() - 1]) == machine);
            if machine.len() > 0 {
                if listed(before, machine) {
                    let i = choose|i: int| 0 <= i < before.len() && before[i] == machine;
                    assert(all[i] == machine);
                } else {
                    assert(all[before.len() as int] == machine);
                }
            }
        }
        if all.contains(machine) && last != machine {
            let i = choose|i: int| 0 <= i < all.len() && all[i] == machine;
            assert(before[i] == machine);
        }
        if exists|i: int| 0 <= i < keys.len() && deployed_machine(#[trigger] keys[i]) == machine {
            let i = choose|i: int|
                0 <= i < keys.len() && deployed_machine(#[trigger] keys[i]) == machine;
            if i < front.len() {
                assert(deployed_machine(front[i]) == machine);
            }
        }
        if all.contains(machine) && last == machine && machine.len() == 0 {
            let i = choose|i: int| 0 <= i < all.len() && all[i] == machine;
            assert(before[i] == machine);
        }
    }
}

/// A key names a machine where it stands behind the prefix for entity types, up to the next
/// separator.
pub proof fn law_entity_keys_name_their_machine(machine: Seq<char>, entity: Seq<char>)
    requires
        !holds_text(machine, "::"@),
        machine.len() == 0 || machine.last() != ':',
    ensures
        deployed_machine("link::vmEntityType::"@ + machine + "::"@ + entity) == machine,
{
    let prefix = "link::vmEntityType::"@;
    let rest = machine + "::"@ + entity;
    let key = prefix + machine + "::"@ + entity;
    assert(key.subrange(0, prefix.len() as int) =~= prefix);
    assert(key.subrange(prefix.len() as int, key.len() as int) =~= rest);
    reveal_strlit("::");
    assert("::"@.len() == 2 && "::"@[0] == ':' && "::"@[1] == ':');
    crate::text::lemma_first_from(rest, "::"@, 0);
    crate::text::lemma_first_from(machine, "::"@, 0);
    let n = machine.len() as int;
    assert(rest.subrange(n, n + 2) =~= "::"@);
    assert(crate::text::occurs_at(rest, "::"@, n));
    if let Some(i) = crate::text::first_from(rest, "::"@, 0) {
        if i + 2 <= n {
            assert(machine.subrange(i, i + 2) =~= rest.subrange(i, i + 2));
            assert(crate::text::occurs_at(machine, "::"@, i));
        } else if i < n {
            assert(rest.subrange(i, i + 2)[0] == rest[i]);
            assert(rest[i] == machine[i]);
        }
        assert(rest.subrange(0, n) =~= machine);
    }
}

} // verus!
