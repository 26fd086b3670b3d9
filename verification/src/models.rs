//! Small messages of the node, changes of its state, and the fields that extend its records.
use vstd::prelude::*;

use crate::json::{no_fields, object, Json, Tree};
use crate::outside::{base64_bytes, base64_decode, base64_encode, base64_text};
use crate::table::law_lookup_after_store;

verus! {

broadcast use {vstd::string::group_string_axioms, law_lookup_after_store};

// ---------------------------------------------------------------- messages

/// A command with its data.
pub struct Command {
    pub value: String,
    pub data: String,
}

/// The document of a command.
pub open spec fn command_document(value: Seq<char>, data: Seq<char>) -> Tree {
    no_fields().with("Value"@, Tree::Text(value)).with("Data"@, Tree::Text(data))
}

impl Command {
    /// The document of the command.
    pub fn to_json(&self) -> (r: Json)
        ensures
            r@ == command_document(self.value@, self.data@),
    {
        object().with("Value", Json::Text(self.value.clone())).with(
            "Data",
            Json::Text(self.data.clone()),
        )
    }

    /// The command of a document that has both fields.
    pub fn from_json(json: &Json) -> (r: Option<Command>)
        ensures
            match r {
                Some(command) => json@.text("Value"@) == Some(command.value@) && json@.text(
                    "Data"@,
                ) == Some(command.data@),
                None => json@.text("Value"@) is None || json@.text("Data"@) is None,
            },
    {
        match (json.text("Value"), json.text("Data")) {
            (Some(value), Some(data)) => Some(
                Command { value: value.to_owned(), data: data.to_owned() },
            ),
            _ => None,
        }
    }
}

/// An error message.
pub struct Error {
    pub message: String,
}

/// The error of a message.
pub fn build_error_json(message: &str) -> (r: Error)
    ensures
        r.message@ == message@,
{
    Error { message: message.to_owned() }
}

/// The document of a message.
pub open spec fn message_document(message: Seq<char>) -> Tree {
    no_fields().with("message"@, Tree::Text(message))
}

impl Error {
    /// The document of the error.
    pub fn to_json(&self) -> (r: Json)
        ensures
            r@ == message_document(self.message@),
    {
        object().with("message", Json::Text(self.message.clone()))
    }
}

/// A plain answer.
pub struct ResponseSimpleMessage {
    pub message: String,
}

impl ResponseSimpleMessage {
    /// The document of the answer.
    pub fn to_json(&self) -> (r: Json)
        ensures
            r@ == message_document(self.message@),
    {
        object().with("message", Json::Text(self.message.clone()))
    }

    /// The answer of a document that has a message.
    pub fn from_json(json: &Json) -> (r: Option<ResponseSimpleMessage>)
        ensures
            match r {
                Some(answer) => json@.text("message"@) == Some(answer.message@),
                None => json@.text("message"@) is None,
            },
    {
        match json.text("message") {
            Some(message) => Some(ResponseSimpleMessage { message: message.to_owned() }),
            None => None,
        }
    }
}

/// A command reads back from its document.
pub proof fn law_commands_read_back(value: Seq<char>, data: Seq<char>)
    ensures
        command_document(value, data).text("Value"@) == Some(value),
        command_document(value, data).text("Data"@) == Some(data),
{
    reveal_strlit("Value");
    reveal_strlit("Data");
    assert("Value"@.len() != "Data"@.len());
}

// ---------------------------------------------------------------- changes of the state

/// A change of one key of the state.
pub struct Update {
    pub typ: String,
    pub key: String,
    pub val: Vec<u8>,
}

/// A change of one key, as texts and bytes.
pub struct UpdateState {
    pub typ: Seq<char>,
    pub key: Seq<char>,
    pub val: Seq<u8>,
}

impl View for Update {
    type V = UpdateState;

    open spec fn view(&self) -> UpdateState {
        UpdateState { typ: self.typ@, key: self.key@, val: self.val@ }
    }
}

/// The document of a change; its value is encoded.
pub open spec fn update_document(update: UpdateState) -> Tree {
    no_fields().with("type"@, Tree::Text(update.typ)).with("key"@, Tree::Text(update.key)).with(
        "val"@,
        Tree::Text(base64_text(update.val)),
    )
}

/// The change that a document stands for, where its value decodes to `val`: a missing value
/// is empty, and a faulty one spoils the document.
pub open spec fn update_read(json: Tree, val: Result<Seq<u8>, Seq<char>>) -> Option<UpdateState> {
    match (json.text("type"@), json.text("key"@)) {
        (Some(typ), Some(key)) => match json.field("val"@) {
            None => Some(UpdateState { typ, key, val: Seq::empty() }),
            Some(Tree::Text(_)) => match val {
                Ok(bytes) => Some(UpdateState { typ, key, val: bytes }),
                Err(_) => None,
            },
            Some(_) => None,
        },
        _ => None,
    }
}

proof fn lemma_update_keys()
    ensures
        "type"@ != "key"@,
        "type"@ != "val"@,
        "key"@ != "val"@,
{
    reveal_strlit("type");
    reveal_strlit("key");
    reveal_strlit("val");
    assert("type"@.len() == 4);
    assert("key"@[0] == 'k');
    assert("val"@[0] == 'v');
}

impl Update {
    /// The document of the change, which reads back as the change.
    pub fn to_json(&self) -> (r: Json)
        requires
            self.val@.len() <= usize::MAX / 4,
        ensures
            r@ == update_document(self@),
            update_read(r@, base64_bytes(r@.text_or_empty("val"@))) == Some(self@),
    {
        let val = base64_encode(self.val.as_slice());
        proof {
            lemma_update_keys();
        }
        object().with("type", Json::Text(self.typ.clone())).with(
            "key",
            Json::Text(self.key.clone()),
        ).with("val", Json::Text(val))
    }

    /// The change of a document whose value was decoded.
    pub fn from_decoded(json: &Json, val: Result<Vec<u8>, String>) -> (r: Option<Update>)
        ensures
            match r {
                Some(update) => update_read(
                    json@,
                    match val {
                        Ok(bytes) => Ok(bytes@),
                        Err(e) => Err(e@),
                    },
                ) == Some(update@),
                None => update_read(
                    json@,
                    match val {
                        Ok(bytes) => Ok(bytes@),
                        Err(e) => Err(e@),
                    },
                ) is None,
            },
    {
        match (json.text("type"), json.text("key")) {
            (Some(typ), Some(key)) => match json.field("val") {
                None => {
                    let none: Vec<u8> = Vec::new();
                    assert(none@ =~= Seq::<u8>::empty());
                    Some(Update { typ: typ.to_owned(), key: key.to_owned(), val: none })
                },
                Some(Json::Text(_)) => match val {
                    Ok(bytes) => Some(
                        Update { typ: typ.to_owned(), key: key.to_owned(), val: bytes },
                    ),
                    Err(_) => None,
                },
                Some(_) => None,
            },
            _ => None,
        }
    }

    /// The change of a document.
    pub fn from_json(json: &Json) -> (r: Option<Update>)
        ensures
            match r {
                Some(update) => update_read(json@, base64_bytes(json@.text_or_empty("val"@)))
                    == Some(update@),
                None => update_read(json@, base64_bytes(json@.text_or_empty("val"@))) is None,
            },
    {
        let val = base64_decode(json.text_or_empty("val"));
        Update::from_decoded(json, val)
    }
}

// ---------------------------------------------------------------- extended fields

/// A field that extends a record: where its value stands in the record's metadata, its
/// default, and how clients treat it. `get_value` names the computation that gives its value
/// in place of the metadata, where there is one.
pub struct ExtendedField {
    pub name: String,
    pub path: String,
    pub typ: String,
    pub default: Json,
    pub required: bool,
    pub searchable: bool,
    pub primary_prop: bool,
    pub get_value: Option<String>,
}

impl Default for ExtendedField {
    fn default() -> (r: Self)
        ensures
            r.name@.len() == 0,
            r.path@.len() == 0,
            r.typ@.len() == 0,
            r.default@ == Tree::Null,
            !r.required,
            !r.searchable,
            !r.primary_prop,
            r.get_value is None,
    {
        ExtendedField {
            name: String::new(),
            path: String::new(),
            typ: String::new(),
            default: Json::Null,
            required: false,
            searchable: false,
            primary_prop: false,
            get_value: None,
        }
    }
}

impl ExtendedField {
    /// A copy of the field.
    pub fn copy(&self) -> (r: ExtendedField)
        ensures
            r.name@ == self.name@,
            r.path@ == self.path@,
            r.typ@ == self.typ@,
            r.default@ == self.default@,
            r.required == self.required,
            r.searchable == self.searchable,
            r.primary_prop == self.primary_prop,
            r.get_value is Some == self.get_value is Some,
            self.get_value matches Some(name) ==> r.get_value->0@ == name@,
    {
        ExtendedField {
            name: self.name.clone(),
            path: self.path.clone(),
            typ: self.typ.clone(),
            default: self.default.copy(),
            required: self.required,
            searchable: self.searchable,
            primary_prop: self.primary_prop,
            get_value: match &self.get_value {
                Some(name) => Some(name.clone()),
                None => None,
            },
        }
    }
}

/// What is known of an extended field of one record: its key and default, what its
/// computation gave, and the object that stands at its path.
pub struct FieldFacts {
    pub key: String,
    pub default: Json,
    pub computed: Option<Json>,
    pub at_path: Option<Json>,
}

/// What is known of an extended field, as texts.
pub struct FieldState {
    pub key: Seq<char>,
    pub default: Tree,
    pub computed: Option<Tree>,
    pub at_path: Option<Tree>,
}

impl View for FieldFacts {
    type V = FieldState;

    open spec fn view(&self) -> FieldState {
        FieldState {
            key: self.key@,
            default: self.default@,
            computed: match self.computed {
                Some(value) => Some(value@),
                None => None,
            },
            at_path: match self.at_path {
                Some(value) => Some(value@),
                None => None,
            },
        }
    }
}

/// The value of an extended field: what its computation gave, or what the metadata holds
/// under its key, or its default.
pub open spec fn field_value(field: FieldState) -> Tree {
    match field.computed {
        Some(value) => value,
        None => match field.at_path {
            Some(fields) => match fields.field(field.key) {
                Some(value) => value,
                None => field.default,
            },
            None => field.default,
        },
    }
}

/// A record with its extended fields.
pub open spec fn extended(record: Tree, fields: Seq<FieldState>) -> Tree
    decreases fields.len(),
{
    if fields.len() == 0 {
        record
    } else {
        extended(record, fields.drop_last()).with(
            fields.last().key,
            field_value(fields.last()),
        )
    }
}

/// The facts of a list.
pub open spec fn facts_of(list: Seq<FieldFacts>) -> Seq<FieldState> {
    list.map_values(|f: FieldFacts| f@)
}

fn value_of(field: &FieldFacts) -> (r: Json)
    ensures
        r@ == field_value(field@),
{
    match &field.computed {
        Some(value) => value.copy(),
        None => match &field.at_path {
            Some(fields) => match fields.field(field.key.as_str()) {
                Some(value) => value.copy(),
                None => field.default.copy(),
            },
            None => field.default.copy(),
        },
    }
}

/// Give a record its extended fields.
pub fn apply_extender_fields(record: Json, fields: &Vec<FieldFacts>) -> (r: Json)
    ensures
        r@ == extended(record@, facts_of(fields@)),
{
    let ghost all = facts_of(fields@);
    let ghost start = record@;
    let mut out = record;
    let mut i: usize = 0;
    assert(all.subrange(0, 0) =~= Seq::empty());
    while i < fields.len()
        invariant
            i <= fields@.len(),
            all == facts_of(fields@),
            out@ == extended(start, all.subrange(0, i as int)),
        decreases fields.len() - i,
    {
        let ghost upto = all.subrange(0, i + 1);
        assert(upto.drop_last() =~= all.subrange(0, i as int));
        assert(upto.last() == fields@[i as int]@);
        let value = value_of(&fields[i]);
        out = out.with(fields[i].key.as_str(), value);
        i = i + 1;
    }
    assert(all.subrange(0, all.len() as int) =~= all);
    out
}

proof fn lemma_extended_field(record: Tree, fields: Seq<FieldState>, i: int)
    requires
        0 <= i < fields.len(),
        forall|j: int| i < j < fields.len() ==> (#[trigger] fields[j]).key != fields[i].key,
    ensures
        extended(record, fields).field(fields[i].key) == Some(field_value(fields[i])),
    decreases fields.len(),
{
    if i < fields.len() - 1 {
        let front = fields.drop_last();
        assert forall|j: int| i < j < front.len() implies (#[trigger] front[j]).key
            != front[i].key by {
            assert(front[j] == fields[j]);
        }
        lemma_extended_field(record, front, i);
        assert(fields[fields.len() - 1].key != fields[i].key);
    }
}

/// Every extended field of a record has its value, where their keys differ.
pub proof fn law_extended_fields_have_their_values(record: Tree, fields: Seq<FieldState>, i: int)
    requires
        0 <= i < fields.len(),
        forall|a: int, b: int|
            0 <= a < b < fields.len() ==> (#[trigger] fields[a]).key != (#[trigger] fields[b]).key,
    ensures
        extended(record, fields).field(fields[i].key) == Some(field_value(fields[i])),
{
    lemma_extended_field(record, fields, i);
}

} // verus!
