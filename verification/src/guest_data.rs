//! Guest data: the pairs and documents that a creature keeps in a database of its own.
use vstd::prelude::*;

use crate::json::{no_fields, object, read_as, Json, Tree};
use crate::outside::{json_read, json_text, json_write, parsed_json};
use crate::store::signals::{text_array, text_items};
use crate::text::{blank, contains, cut, holds_text, join2, same, split_once, texts, trimmed};

verus! {

broadcast use vstd::string::group_string_axioms;

/// The two kinds of pairs.
#[derive(PartialEq, Eq, Structural, Clone, Copy, Debug)]
pub enum Namespace {
    DbOp,
    AppletDb,
}

/// What is asked of a guest database.
pub enum GuestOperation {
    PutJson { key: String, path: String, data: String, merge: bool },
    GetJson { key: String, path: String },
    ListJson { prefix: String, limit: usize },
    DeleteJson { key: String, path: String },
    Put { namespace: Namespace, key: String, value: String },
    Get { namespace: Namespace, key: String },
    Delete { namespace: Namespace, key: String },
    List { namespace: Namespace, prefix: String, limit: usize },
}

/// What is asked of a guest database, as texts.
pub enum Asked {
    PutJson { key: Seq<char>, path: Seq<char>, data: Seq<char>, merge: bool },
    GetJson { key: Seq<char>, path: Seq<char> },
    ListJson { prefix: Seq<char>, limit: usize },
    DeleteJson { key: Seq<char>, path: Seq<char> },
    Put { namespace: Namespace, key: Seq<char>, value: Seq<char> },
    Get { namespace: Namespace, key: Seq<char> },
    Delete { namespace: Namespace, key: Seq<char> },
    List { namespace: Namespace, prefix: Seq<char>, limit: usize },
}

impl View for GuestOperation {
    type V = Asked;

    open spec fn view(&self) -> Asked {
        match self {
            GuestOperation::PutJson { key, path, data, merge } => Asked::PutJson {
                key: key@,
                path: path@,
                data: data@,
                merge: *merge,
            },
            GuestOperation::GetJson { key, path } => Asked::GetJson { key: key@, path: path@ },
            GuestOperation::ListJson { prefix, limit } => Asked::ListJson {
                prefix: prefix@,
                limit: *limit,
            },
            GuestOperation::DeleteJson { key, path } => Asked::DeleteJson {
                key: key@,
                path: path@,
            },
            GuestOperation::Put { namespace, key, value } => Asked::Put {
                namespace: *namespace,
                key: key@,
                value: value@,
            },
            GuestOperation::Get { namespace, key } => Asked::Get {
                namespace: *namespace,
                key: key@,
            },
            GuestOperation::Delete { namespace, key } => Asked::Delete {
                namespace: *namespace,
                key: key@,
            },
            GuestOperation::List { namespace, prefix, limit } => Asked::List {
                namespace: *namespace,
                prefix: prefix@,
                limit: *limit,
            },
        }
    }
}

/// A flag that is set unless the document says otherwise.
pub open spec fn merges(input: Tree) -> bool {
    match input.field("merge"@) {
        Some(Tree::Bool(b)) => b,
        _ => true,
    }
}

/// A field of a document, or nothing where it has none.
pub open spec fn field_or_null(input: Tree, key: Seq<char>) -> Tree {
    match input.field(key) {
        Some(value) => value,
        None => Tree::Null,
    }
}

/// The operation that a document call asks for; `limit` is the most that a listing gives.
pub open spec fn state_operation(op: Seq<char>, input: Tree, limit: usize) -> Result<
    Asked,
    Seq<char>,
> {
    let key = input.text_or_empty("key"@);
    let path = input.text_or_empty("path"@);
    let keyed = op == "putJson"@ || op == "getJson"@ || op == "delKey"@ || op == "getLink"@;
    if keyed && key.len() == 0 {
        Err("key is required"@)
    } else if op == "putJson"@ {
        Ok(
            Asked::PutJson {
                key,
                path,
                data: json_text(field_or_null(input, "data"@)),
                merge: merges(input),
            },
        )
    } else if op == "getJson"@ {
        Ok(Asked::GetJson { key, path })
    } else if op == "getByPrefix"@ {
        Ok(Asked::ListJson { prefix: input.text_or_empty("prefix"@), limit })
    } else if op == "delKey"@ {
        Ok(Asked::DeleteJson { key, path })
    } else if op == "getLink"@ {
        Ok(Asked::Get { namespace: Namespace::DbOp, key })
    } else {
        Err("unsupported guest state op: "@ + op)
    }
}

/// Read the operation that a document call asks for.
pub fn state_with(op: &str, input: &Json, limit: usize) -> (r: Result<GuestOperation, String>)
    ensures
        match r {
            Ok(operation) => state_operation(op@, input@, limit) == Ok::<Asked, Seq<char>>(
                operation@,
            ),
            Err(e) => state_operation(op@, input@, limit) == Err::<Asked, Seq<char>>(e@),
        },
{
    let key = input.text_or_empty("key").to_owned();
    let path = input.text_or_empty("path").to_owned();
    let keyed: bool = same(op, "putJson") || same(op, "getJson") || same(op, "delKey") || same(
        op,
        "getLink",
    );
    if keyed && key.as_str().is_empty() {
        return Err("key is required".to_owned());
    }
    if same(op, "putJson") {
        let data: String = match input.field("data") {
            Some(value) => json_write(value),
            None => json_write(&Json::Null),
        };
        let merge: bool = match input.field("merge") {
            Some(Json::Bool(b)) => *b,
            _ => true,
        };
        Ok(GuestOperation::PutJson { key, path, data, merge })
    } else if same(op, "getJson") {
        Ok(GuestOperation::GetJson { key, path })
    } else if same(op, "getByPrefix") {
        Ok(
            GuestOperation::ListJson {
                prefix: input.text_or_empty("prefix").to_owned(),
                limit,
            },
        )
    } else if same(op, "delKey") {
        Ok(GuestOperation::DeleteJson { key, path })
    } else if same(op, "getLink") {
        Ok(GuestOperation::Get { namespace: Namespace::DbOp, key })
    } else {
        Err(join2("unsupported guest state op: ", op))
    }
}

/// The operation that a call on pairs asks for.
pub open spec fn pair_operation(
    namespace: Namespace,
    op: Seq<char>,
    key: Seq<char>,
    value: Seq<char>,
    prefix: Seq<char>,
    limit: usize,
) -> Result<Asked, Seq<char>> {
    if op == "put"@ {
        Ok(Asked::Put { namespace, key, value })
    } else if op == "get"@ {
        Ok(Asked::Get { namespace, key })
    } else if op == "del"@ {
        Ok(Asked::Delete { namespace, key })
    } else if op == "getByPrefix"@ {
        Ok(Asked::List { namespace, prefix, limit })
    } else {
        Err("unsupported dbOp: "@ + op)
    }
}

/// Read the operation that a call on pairs asks for.
pub fn db_op_with(
    namespace: Namespace,
    op: &str,
    key: &str,
    value: &str,
    prefix: &str,
    limit: usize,
) -> (r: Result<GuestOperation, String>)
    ensures
        match r {
            Ok(operation) => pair_operation(namespace, op@, key@, value@, prefix@, limit) == Ok::<
                Asked,
                Seq<char>,
            >(operation@),
            Err(e) => pair_operation(namespace, op@, key@, value@, prefix@, limit) == Err::<
                Asked,
                Seq<char>,
            >(e@),
        },
{
    if same(op, "put") {
        Ok(GuestOperation::Put { namespace, key: key.to_owned(), value: value.to_owned() })
    } else if same(op, "get") {
        Ok(GuestOperation::Get { namespace, key: key.to_owned() })
    } else if same(op, "del") {
        Ok(GuestOperation::Delete { namespace, key: key.to_owned() })
    } else if same(op, "getByPrefix") {
        Ok(GuestOperation::List { namespace, prefix: prefix.to_owned(), limit })
    } else {
        Err(join2("unsupported dbOp: ", op))
    }
}

/// Why a creature gets no guest data: nobody is named, or its database is not active. It is
/// refused rather than served from elsewhere, which would split its data.
pub open spec fn guest_refusal(creature: Seq<char>, active: bool) -> Option<Seq<char>> {
    if trimmed(creature).len() == 0 {
        Some("guest data needs an identified creature"@)
    } else if !active {
        Some("the creature's guest database is not active"@)
    } else {
        None
    }
}

/// Refuse guest data where a creature has none.
pub fn refuse_guest(creature: &str, active: bool) -> (r: Result<(), String>)
    ensures
        match r {
            Ok(_) => guest_refusal(creature@, active) is None,
            Err(e) => guest_refusal(creature@, active) == Some(e@),
        },
{
    if blank(creature) {
        return Err("guest data needs an identified creature".to_owned());
    }
    if !active {
        return Err("the creature's guest database is not active".to_owned());
    }
    Ok(())
}

/// What a guest database answers.
pub enum GuestOutcome {
    Document { data: String },
    Keys { keys: Vec<String> },
    Value { value: Option<String> },
    Listed { values: Vec<String> },
    Done,
}

/// What a guest database answers, as texts.
pub enum Outcome {
    Document { data: Seq<char> },
    Keys { keys: Seq<Seq<char>> },
    Value { value: Option<Seq<char>> },
    Listed { values: Seq<Seq<char>> },
    Done,
}

impl View for GuestOutcome {
    type V = Outcome;

    open spec fn view(&self) -> Outcome {
        match self {
            GuestOutcome::Document { data } => Outcome::Document { data: data@ },
            GuestOutcome::Keys { keys } => Outcome::Keys { keys: texts(keys@) },
            GuestOutcome::Value { value } => Outcome::Value {
                value: match value {
                    Some(text) => Some(text@),
                    None => None,
                },
            },
            GuestOutcome::Listed { values } => Outcome::Listed { values: texts(values@) },
            GuestOutcome::Done => Outcome::Done,
        }
    }
}

/// The value that was found, or none.
pub open spec fn value_or_empty(value: Option<Seq<char>>) -> Seq<char> {
    match value {
        Some(text) => text,
        None => Seq::empty(),
    }
}

/// The answer with a document that was read; one that cannot be read is an empty one.
pub open spec fn document_answer(read: Result<Tree, Seq<char>>) -> Tree {
    no_fields().with("ok"@, Tree::Bool(true)).with(
        "data"@,
        match read {
            Ok(value) => value,
            Err(_) => no_fields(),
        },
    )
}

/// Answer with a document that was read.
pub fn answer_document(read: Result<Json, String>) -> (r: Json)
    ensures
        r@ == document_answer(read_as(read)),
{
    let value: Json = match read {
        Ok(value) => value,
        Err(_) => object(),
    };
    object().with("ok", Json::Bool(true)).with("data", value)
}

/// The answer to a document call.
pub open spec fn state_answer(outcome: Outcome) -> Tree {
    let ok = no_fields().with("ok"@, Tree::Bool(true));
    match outcome {
        Outcome::Document { data } => document_answer(parsed_json(data)),
        Outcome::Keys { keys } => ok.with("data"@, text_items(keys)),
        Outcome::Value { value } => ok.with("value"@, Tree::Text(value_or_empty(value))),
        _ => ok,
    }
}

fn text_or_empty(value: &Option<String>) -> (r: String)
    ensures
        r@ == value_or_empty(
            match value {
                Some(text) => Some(text@),
                None => None,
            },
        ),
{
    match value {
        Some(text) => text.clone(),
        None => {
            let empty = String::new();
            assert(empty@ =~= Seq::<char>::empty());
            empty
        },
    }
}

/// Answer a document call.
pub fn answer_state(outcome: &GuestOutcome) -> (r: Json)
    ensures
        r@ == state_answer(outcome@),
{
    let ok = object().with("ok", Json::Bool(true));
    match outcome {
        GuestOutcome::Document { data } => answer_document(json_read(data.as_str())),
        GuestOutcome::Keys { keys } => ok.with("data", text_array(keys)),
        GuestOutcome::Value { value } => ok.with("value", Json::Text(text_or_empty(value))),
        _ => ok,
    }
}

/// The answer to a call on pairs.
pub open spec fn pair_answer(outcome: Outcome) -> Tree {
    match outcome {
        Outcome::Value { value } => no_fields().with("data"@, Tree::Text(value_or_empty(value))),
        Outcome::Listed { values } => no_fields().with("data"@, text_items(values)),
        _ => no_fields(),
    }
}

/// Answer a call on pairs, with the text of a document.
pub fn answer_db_op(outcome: &GuestOutcome) -> (r: String)
    ensures
        r@ == json_text(pair_answer(outcome@)),
{
    json_write(&answer_pairs(outcome))
}

/// The document that a call on pairs is answered with.
pub fn answer_pairs(outcome: &GuestOutcome) -> (r: Json)
    ensures
        r@ == pair_answer(outcome@),
{
    match outcome {
        GuestOutcome::Value { value } => object().with("data", Json::Text(text_or_empty(value))),
        GuestOutcome::Listed { values } => object().with("data", text_array(values)),
        _ => object(),
    }
}

/// The creature and the guest key that a runtime's key names.
pub open spec fn runtime_key(key: Seq<char>) -> Option<(Seq<char>, Seq<char>)> {
    match cut(key, "::"@) {
        Some((creature, rest)) => if holds_text(creature, "@"@) {
            Some((creature, rest))
        } else {
            None
        },
        None => None,
    }
}

/// Split a runtime's key into its creature and its guest key.
pub fn split_runtime_key(key: &str) -> (r: Option<(&str, &str)>)
    ensures
        match r {
            Some((creature, rest)) => runtime_key(key@) == Some((creature@, rest@)),
            None => runtime_key(key@) is None,
        },
{
    match split_once(key, "::") {
        Some((creature, rest)) => if contains(creature, "@") {
            Some((creature, rest))
        } else {
            None
        },
        None => None,
    }
}

} // verus!
