//! What virtual machines ask of their host: state, logs, and callbacks.
use vstd::prelude::*;

use crate::creature::directory::{Creatures, CreaturesState};
use crate::finance::accounts::{keys_under, links_under};
use crate::finance::ledger::link_of;
use crate::guest_data::{field_or_null, runtime_key, split_runtime_key};
use crate::json::{items_of, no_fields, object, read_as, Json, Tree};
use crate::outside::{json_read, parsed_json};
use crate::program::instances::terminal_key;
use crate::table::{
    dropped, law_lookup_after_drop, law_lookup_after_store, lookup, stored, Rows, Table,
};
use crate::text::{has_suffix, join2, join3, join4, pieces, same, split, strip_suffix, texts};

verus! {

broadcast use {vstd::string::group_string_axioms, law_lookup_after_store};

// ---------------------------------------------------------------- inputs

/// The text of a field, or a default.
pub open spec fn text_field(input: Tree, key: Seq<char>, default: Seq<char>) -> Seq<char> {
    match input.text(key) {
        Some(text) => text,
        None => default,
    }
}

/// The text of a field, or a default.
pub fn check_str(input: &Json, key: &str, default: &str) -> (r: String)
    ensures
        r@ == text_field(input@, key@, default@),
{
    match input.text(key) {
        Some(text) => text.to_owned(),
        None => default.to_owned(),
    }
}

/// The number of a field, or a default.
pub open spec fn number_field(input: Tree, key: Seq<char>, default: i64) -> i64 {
    match input.number(key) {
        Some(n) => n,
        None => default,
    }
}

/// The number of a field, or a default. A number with a fraction loses it.
pub fn check_i64(input: &Json, key: &str, default: i64) -> (r: i64)
    ensures
        r == number_field(input@, key@, default),
{
    match input.number(key) {
        Some(n) => n,
        None => default,
    }
}

/// The flag of a field, which a text may spell, or a default.
pub open spec fn flag_field(input: Tree, key: Seq<char>, default: bool) -> bool {
    match input.field(key) {
        Some(Tree::Bool(b)) => b,
        Some(Tree::Text(text)) => text == "true"@ || text == "1"@,
        _ => default,
    }
}

/// The flag of a field, which a text may spell, or a default.
pub fn check_bool(input: &Json, key: &str, default: bool) -> (r: bool)
    ensures
        r == flag_field(input@, key@, default),
{
    match input.field(key) {
        Some(Json::Bool(b)) => *b,
        Some(Json::Text(text)) => same(text.as_str(), "true") || same(text.as_str(), "1"),
        _ => default,
    }
}

// ---------------------------------------------------------------- state

/// A change of the state that machines keep.
pub struct KvOp {
    pub op: String,
    pub key: String,
    pub val: String,
}

/// A change of the state that machines keep, as texts.
pub struct Change {
    pub op: Seq<char>,
    pub key: Seq<char>,
    pub val: Seq<char>,
}

impl View for KvOp {
    type V = Change;

    open spec fn view(&self) -> Change {
        Change { op: self.op@, key: self.key@, val: self.val@ }
    }
}

/// Changes as texts.
pub open spec fn changes(ops: Seq<KvOp>) -> Seq<Change> {
    Seq::new(ops.len(), |i: int| ops[i]@)
}

/// A change of a creature's own database.
pub struct GuestChange {
    pub creature: String,
    pub op: String,
    pub key: String,
    pub val: String,
}

/// A change of a creature's own database, as texts.
pub struct Routed {
    pub creature: Seq<char>,
    pub op: Seq<char>,
    pub key: Seq<char>,
    pub val: Seq<char>,
}

impl View for GuestChange {
    type V = Routed;

    open spec fn view(&self) -> Routed {
        Routed { creature: self.creature@, op: self.op@, key: self.key@, val: self.val@ }
    }
}

/// Changes of databases as texts.
pub open spec fn routed(list: Seq<GuestChange>) -> Seq<Routed> {
    Seq::new(list.len(), |i: int| list[i]@)
}

/// The host that virtual machines reach: the links that hold the state of runtimes, and
/// whether guest data is kept in databases of the creatures' own.
pub struct VmmHostBridge {
    pub links: Table<String>,
    pub own_databases: bool,
}

/// The creature and the key that a change or a reading goes to, where it goes to the
/// database of a creature.
pub open spec fn guest_key(own_databases: bool, key: Seq<char>) -> Option<(Seq<char>, Seq<char>)> {
    if own_databases {
        runtime_key(key)
    } else {
        None
    }
}

/// The links after a change. Any other operation changes nothing.
pub open spec fn changed(links: Rows<Seq<char>>, change: Change) -> Rows<Seq<char>> {
    if change.op == "put"@ {
        stored(links, change.key, change.val)
    } else if change.op == "del"@ {
        dropped(links, change.key)
    } else {
        links
    }
}

/// The links after those changes that stay on the node.
pub open spec fn all_changed(own_databases: bool, links: Rows<Seq<char>>, ops: Seq<Change>) -> Rows<
    Seq<char>,
>
    decreases ops.len(),
{
    if ops.len() == 0 {
        links
    } else {
        let before = all_changed(own_databases, links, ops.drop_last());
        if guest_key(own_databases, ops.last().key) is Some {
            before
        } else {
            changed(before, ops.last())
        }
    }
}

/// The changes that go to databases of creatures, in order.
pub open spec fn all_routed(own_databases: bool, ops: Seq<Change>) -> Seq<Routed>
    decreases ops.len(),
{
    if ops.len() == 0 {
        Seq::empty()
    } else {
        let before = all_routed(own_databases, ops.drop_last());
        match guest_key(own_databases, ops.last().key) {
            Some((creature, key)) => before.push(
                Routed { creature, op: ops.last().op, key, val: ops.last().val },
            ),
            None => before,
        }
    }
}

/// Where a reading finds its value.
pub enum StateRead {
    /// In the database of a creature.
    Guest { creature: String, key: String },
    /// On the node.
    Local(String),
}

impl VmmHostBridge {
    /// The creature and the key in its database that a key leads to.
    pub fn guest_target(&self, key: &str) -> (r: Option<(String, String)>)
        ensures
            match r {
                Some((creature, rest)) => guest_key(self.own_databases, key@) == Some(
                    (creature@, rest@),
                ),
                None => guest_key(self.own_databases, key@) is None,
            },
    {
        if !self.own_databases {
            return None;
        }
        match split_runtime_key(key) {
            Some((creature, rest)) => Some((creature.to_owned(), rest.to_owned())),
            None => None,
        }
    }

    /// Read the state under a key.
    pub fn state_get(&self, key: &str) -> (r: StateRead)
        ensures
            match r {
                StateRead::Guest { creature, key: rest } => guest_key(self.own_databases, key@)
                    == Some((creature@, rest@)),
                StateRead::Local(value) => guest_key(self.own_databases, key@) is None && value@
                    == link_of(self.links@, key@),
            },
    {
        match self.guest_target(key) {
            Some((creature, rest)) => StateRead::Guest { creature, key: rest },
            None => match self.links.get(key) {
                Some(value) => StateRead::Local(value.clone()),
                None => {
                    let empty = String::new();
                    assert(empty@ =~= Seq::<char>::empty());
                    StateRead::Local(empty)
                },
            },
        }
    }

    /// The changes that go to databases of creatures. They are made first: where one fails,
    /// nothing changes on the node.
    pub fn guest_changes(&self, ops: &Vec<KvOp>) -> (r: Vec<GuestChange>)
        ensures
            routed(r@) == all_routed(self.own_databases, changes(ops@)),
    {
        let ghost all = changes(ops@);
        let mut out: Vec<GuestChange> = Vec::new();
        let mut i: usize = 0;
        assert(all.subrange(0, 0) =~= Seq::empty());
        assert(routed(out@) =~= Seq::empty());
        while i < ops.len()
            invariant
                i <= ops@.len(),
                all == changes(ops@),
                routed(out@) == all_routed(self.own_databases, all.subrange(0, i as int)),
            decreases ops@.len() - i,
        {
            let ghost upto = all.subrange(0, i + 1);
            assert(upto.drop_last() =~= all.subrange(0, i as int));
            assert(upto.last() == ops@[i as int]@);
            if let Some((creature, key)) = self.guest_target(ops[i].key.as_str()) {
                let one = GuestChange {
                    creature,
                    op: ops[i].op.clone(),
                    key,
                    val: ops[i].val.clone(),
                };
                let ghost before = routed(out@);
                let ghost shown = one@;
                out.push(one);
                assert(routed(out@) =~= before.push(shown));
            }
            i = i + 1;
        }
        assert(all.subrange(0, all.len() as int) =~= all);
        out
    }

    /// Make the changes that stay on the node.
    pub fn state_apply_ops(&mut self, ops: &Vec<KvOp>)
        ensures
            final(self).own_databases == old(self).own_databases,
            final(self).links@ == all_changed(
                old(self).own_databases,
                old(self).links@,
                changes(ops@),
            ),
    {
        let ghost all = changes(ops@);
        let mut i: usize = 0;
        assert(all.subrange(0, 0) =~= Seq::empty());
        while i < ops.len()
            invariant
                i <= ops@.len(),
                all == changes(ops@),
                self.own_databases == old(self).own_databases,
                self.links@ == all_changed(
                    old(self).own_databases,
                    old(self).links@,
                    all.subrange(0, i as int),
                ),
            decreases ops@.len() - i,
        {
            let ghost upto = all.subrange(0, i + 1);
            assert(upto.drop_last() =~= all.subrange(0, i as int));
            assert(upto.last() == ops@[i as int]@);
            if self.guest_target(ops[i].key.as_str()).is_none() {
                if same(ops[i].op.as_str(), "put") {
                    self.links.put(ops[i].key.as_str(), ops[i].val.clone());
                } else if same(ops[i].op.as_str(), "del") {
                    self.links.remove(ops[i].key.as_str());
                }
            }
            i = i + 1;
        }
        assert(all.subrange(0, all.len() as int) =~= all);
    }
}

/// Where a scan goes.
pub enum PrefixRead {
    /// To the database of a creature, under the prefix that is left.
    Guest { creature: String, prefix: String },
    /// To the node: the keys that it found.
    Local(Vec<String>),
}

/// The texts of a list; what is no text is passed over.
pub open spec fn texts_among(items: Seq<Tree>) -> Seq<Seq<char>>
    decreases items.len(),
{
    if items.len() == 0 {
        Seq::empty()
    } else {
        let before = texts_among(items.drop_last());
        match items.last() {
            Tree::Text(text) => before.push(text),
            _ => before,
        }
    }
}

/// The texts that a creature's database found; none where it was not read, or answered
/// something else.
pub open spec fn found_texts(answer: Option<Tree>) -> Seq<Seq<char>> {
    match answer {
        Some(value) => match value.items("data"@) {
            Some(items) => texts_among(items),
            None => Seq::empty(),
        },
        None => Seq::empty(),
    }
}

/// Read what a creature's database found.
pub fn guest_texts(answer: Option<&Json>) -> (r: Vec<String>)
    ensures
        texts(r@) == found_texts(
            match answer {
                Some(value) => Some(value@),
                None => None,
            },
        ),
{
    let mut out: Vec<String> = Vec::new();
    assert(texts(out@) =~= Seq::empty());
    let items = match answer {
        Some(value) => match value.items("data") {
            Some(items) => items,
            None => {
                return out;
            },
        },
        None => {
            return out;
        },
    };
    let ghost all = items_of(items@);
    let mut i: usize = 0;
    assert(all.subrange(0, 0) =~= Seq::empty());
    while i < items.len()
        invariant
            i <= items@.len(),
            all == items_of(items@),
            texts(out@) == texts_among(all.subrange(0, i as int)),
        decreases items@.len() - i,
    {
        let ghost upto = all.subrange(0, i + 1);
        assert(upto.drop_last() =~= all.subrange(0, i as int));
        assert(upto.last() == items@[i as int]@);
        if let Json::Text(text) = &items[i] {
            let ghost before = texts(out@);
            out.push(text.clone());
            assert(texts(out@) =~= before.push(text@));
        }
        i = i + 1;
    }
    assert(all.subrange(0, all.len() as int) =~= all);
    out
}

/// What a creature's database answered, where it answered a document.
pub open spec fn answered(answer: Option<Seq<char>>) -> Option<Tree> {
    match answer {
        Some(text) => match parsed_json(text) {
            Ok(document) => Some(document),
            Err(_) => None,
        },
        None => None,
    }
}

fn read_answer(answer: Option<&str>) -> (r: Option<Json>)
    ensures
        match r {
            Some(document) => answered(
                match answer {
                    Some(text) => Some(text@),
                    None => None,
                },
            ) == Some(document@),
            None => answered(
                match answer {
                    Some(text) => Some(text@),
                    None => None,
                },
            ) is None,
        },
{
    match answer {
        Some(text) => match json_read(text) {
            Ok(document) => Some(document),
            Err(_) => None,
        },
        None => None,
    }
}

/// The text that a creature's database found; empty where it was not read, or answered
/// something else.
pub open spec fn found_text(answer: Option<Tree>) -> Seq<char> {
    match answer {
        Some(document) => document.text_or_empty("data"@),
        None => Seq::empty(),
    }
}

/// Read the text that a creature's database found.
pub fn guest_text(answer: Option<&Json>) -> (r: String)
    ensures
        r@ == found_text(
            match answer {
                Some(document) => Some(document@),
                None => None,
            },
        ),
{
    match answer {
        Some(document) => document.text_or_empty("data").to_owned(),
        None => {
            let empty = String::new();
            assert(empty@ =~= Seq::<char>::empty());
            empty
        },
    }
}

/// Read the text that a creature's database found, from the text of its answer; there is none
/// where the database refused.
pub fn guest_value(answer: Option<&str>) -> (r: String)
    ensures
        r@ == found_text(
            answered(
                match answer {
                    Some(text) => Some(text@),
                    None => None,
                },
            ),
        ),
{
    match read_answer(answer) {
        Some(document) => guest_text(Some(&document)),
        None => guest_text(None),
    }
}

/// Read the texts that a creature's database found, from the text of its answer.
pub fn guest_values(answer: Option<&str>) -> (r: Vec<String>)
    ensures
        texts(r@) == found_texts(
            answered(
                match answer {
                    Some(text) => Some(text@),
                    None => None,
                },
            ),
        ),
{
    match read_answer(answer) {
        Some(document) => guest_texts(Some(&document)),
        None => guest_texts(None),
    }
}

impl VmmHostBridge {
    /// Decide where a scan goes, and scan where it stays on the node.
    pub fn state_get_by_prefix(&self, prefix: &str) -> (r: PrefixRead)
        ensures
            match r {
                PrefixRead::Guest { creature, prefix: rest } => guest_key(
                    self.own_databases,
                    prefix@,
                ) == Some((creature@, rest@)),
                PrefixRead::Local(keys) => guest_key(self.own_databases, prefix@) is None && texts(
                    keys@,
                ) == keys_under(self.links@, prefix@),
            },
    {
        if let Some((creature, rest)) = self.guest_target(prefix) {
            return PrefixRead::Guest { creature, prefix: rest };
        }
        PrefixRead::Local(links_under(&self.links, prefix))
    }
}

// ---------------------------------------------------------------- signals

/// What becomes of a signal to a machine.
pub enum SignalStep {
    /// It is none for a machine.
    Ignored,
    /// A proxy took it on: back to its sender, or on to its target.
    Proxied,
    /// No monitor can run the entity.
    Dropped,
    /// The entity runs on it.
    Deliver { entity: String, store: String },
}

/// Decide what becomes of a signal to a machine. `address` is the entity and the store that
/// it names, where it can be read; a proxy is asked before anything runs.
pub fn dispatch_signal(
    key: &str,
    address: Option<(String, String)>,
    routed_back: bool,
    forwarded: bool,
    has_vmm: bool,
) -> (r: SignalStep)
    ensures
        r is Ignored <==> key@ != "creatures/signal"@,
        r is Proxied <==> key@ == "creatures/signal"@ && (routed_back || forwarded),
        r is Dropped <==> key@ == "creatures/signal"@ && !routed_back && !forwarded && !has_vmm,
        match r {
            SignalStep::Deliver { entity, store } => match address {
                Some((e, s)) => entity@ == e@ && store@ == s@,
                None => entity@.len() == 0 && store@.len() == 0,
            },
            _ => true,
        },
{
    if !same(key, "creatures/signal") {
        return SignalStep::Ignored;
    }
    if routed_back || forwarded {
        return SignalStep::Proxied;
    }
    if !has_vmm {
        return SignalStep::Dropped;
    }
    match address {
        Some((entity, store)) => SignalStep::Deliver { entity, store },
        None => SignalStep::Deliver { entity: String::new(), store: String::new() },
    }
}

// ---------------------------------------------------------------- callbacks

/// What a callback is about.
#[derive(Clone, Copy, PartialEq, Eq, Structural, Debug)]
pub enum CallbackRoute {
    TerminateVm,
    PlantTrigger,
    Signal,
    Log,
    /// Nobody vouches for the caller of anything else.
    Refused,
}

/// What a callback is about.
pub open spec fn callback_route(key: Seq<char>) -> CallbackRoute {
    if key == "terminateVm"@ {
        CallbackRoute::TerminateVm
    } else if key == "plantTrigger"@ {
        CallbackRoute::PlantTrigger
    } else if key == "signal"@ {
        CallbackRoute::Signal
    } else if key == "log"@ || key == "vmLog"@ || key == "buildLog"@ || key == "output"@ || key
        == "vmOutput"@ {
        CallbackRoute::Log
    } else {
        CallbackRoute::Refused
    }
}

/// A callback of a runtime.
pub struct Callback {
    pub route: CallbackRoute,
    pub request_id: i64,
    pub input: Json,
}

/// Whether a callback is what a document says.
pub open spec fn is_callback_of(callback: Callback, data: Tree) -> bool {
    &&& callback.route == callback_route(text_field(data, "key"@, Seq::empty()))
    &&& callback.request_id == number_field(data, "requestId"@, 0)
    &&& callback.input@ == field_or_null(data, "input"@)
}

/// What is answered to a callback that is no document.
pub open spec fn undecoded(fault: Seq<char>) -> Seq<char> {
    "{\"error\":\""@ + fault + "\"}"@
}

/// Read a callback from the text that came: what it is about, the number of its request, and its
/// input; or what is answered where the text is no document.
pub fn vm_callback(data_raw: &str) -> (r: Result<Callback, String>)
    ensures
        match parsed_json(data_raw@) {
            Ok(data) => r matches Ok(callback) && is_callback_of(callback, data),
            Err(fault) => r matches Err(answer) && answer@ == undecoded(fault),
        },
{
    match json_read(data_raw) {
        Ok(data) => Ok(read_callback(&data)),
        Err(fault) => Err(join3("{\"error\":\"", fault.as_str(), "\"}")),
    }
}

/// Read a callback: what it is about, the number of its request, and its input.
pub fn read_callback(data: &Json) -> (r: Callback)
    ensures
        is_callback_of(r, data@),
{
    let request_id: i64 = check_i64(data, "requestId", 0);
    let key = check_str(data, "key", "");
    proof {
        reveal_strlit("");
        assert(""@ =~= Seq::<char>::empty());
    }
    let input: Json = match data.field("input") {
        Some(input) => input.copy(),
        None => Json::Null,
    };
    let name = key.as_str();
    let route = if same(name, "terminateVm") {
        CallbackRoute::TerminateVm
    } else if same(name, "plantTrigger") {
        CallbackRoute::PlantTrigger
    } else if same(name, "signal") {
        CallbackRoute::Signal
    } else if same(name, "log") || same(name, "vmLog") || same(name, "buildLog") || same(
        name,
        "output",
    ) || same(name, "vmOutput") {
        CallbackRoute::Log
    } else {
        CallbackRoute::Refused
    };
    Callback { route, request_id, input }
}

/// What is answered to a callback that nobody vouches for.
pub fn refused_callback() -> (r: Json)
    ensures
        r@ == no_fields().with("ok"@, Tree::Bool(false)).with(
            "error"@,
            Tree::Text("this operation needs an identified caller"@),
        ),
{
    object().with("ok", Json::Bool(false)).with(
        "error",
        Json::Text("this operation needs an identified caller".to_owned()),
    )
}

/// The call of a guest as the host takes it. Who calls is stamped on it here and never read
/// from its input.
pub open spec fn stamped_call(
    op: Seq<char>,
    input: Tree,
    program: Seq<char>,
    entity: Seq<char>,
    instance: Seq<char>,
) -> Tree {
    no_fields().with("type"@, Tree::Text("hostCall"@)).with("op"@, Tree::Text(op)).with(
        "input"@,
        input,
    ).with("creatureId"@, Tree::Text(program)).with("programId"@, Tree::Text(program)).with(
        "machineId"@,
        Tree::Text(program),
    ).with("entityId"@, Tree::Text(entity)).with("vmId"@, Tree::Text(instance))
}

/// The call of a guest as the host takes it.
pub fn guest_call(op: &str, input: &Json, program: &str, entity: &str, instance: &str) -> (r: Json)
    ensures
        r@ == stamped_call(op@, input@, program@, entity@, instance@),
{
    object().with("type", Json::Text("hostCall".to_owned())).with(
        "op",
        Json::Text(op.to_owned()),
    ).with("input", input.copy()).with("creatureId", Json::Text(program.to_owned())).with(
        "programId",
        Json::Text(program.to_owned()),
    ).with("machineId", Json::Text(program.to_owned())).with(
        "entityId",
        Json::Text(entity.to_owned()),
    ).with("vmId", Json::Text(instance.to_owned()))
}

/// The call of a guest as the host takes it, from the text of its input.
pub open spec fn stamped_text(
    op: Seq<char>,
    input: Seq<char>,
    program: Seq<char>,
    entity: Seq<char>,
    instance: Seq<char>,
) -> Result<Tree, Seq<char>> {
    match parsed_json(input) {
        Ok(document) => Ok(stamped_call(op, document, program, entity, instance)),
        Err(_) => Err("the input is not JSON"@),
    }
}

/// The call of a guest as the host takes it, from the text of its input.
pub fn call(op: &str, input: &str, program: &str, entity: &str, instance: &str) -> (r: Result<
    Json,
    String,
>)
    ensures
        read_as(r) == stamped_text(op@, input@, program@, entity@, instance@),
{
    match json_read(input) {
        Ok(document) => Ok(guest_call(op, &document, program, entity, instance)),
        Err(_) => Err("the input is not JSON".to_owned()),
    }
}

/// A packet of a kind: the input, with its kind where it has fields.
pub open spec fn typed(input: Tree, kind: Seq<char>) -> Tree {
    if input is Object {
        input.with("type"@, Tree::Text(kind))
    } else {
        input
    }
}

/// The packet that hands an input to the machines as a request of some kind.
pub fn typed_packet(input: &Json, kind: &str) -> (r: Json)
    ensures
        r@ == typed(input@, kind@),
{
    let packet = input.copy();
    if input.is_object() {
        packet.with("type", Json::Text(kind.to_owned()))
    } else {
        packet
    }
}

/// The packet that asks a machine to copy a file in.
pub fn copy_to_vm(input: &Json) -> (r: Json)
    ensures
        r@ == typed(input@, "copyToVm"@),
{
    typed_packet(input, "copyToVm")
}

/// The packet that stops a machine.
pub fn terminate_vm(input: &Json) -> (r: Json)
    ensures
        r@ == typed(input@, "terminateVm"@),
{
    typed_packet(input, "terminateVm")
}

/// The answer to one who asked for something that may fail.
pub open spec fn done_or_error(result: Result<(), Seq<char>>) -> Tree {
    match result {
        Ok(_) => no_fields().with("ok"@, Tree::Bool(true)),
        Err(e) => no_fields().with("ok"@, Tree::Bool(false)).with("error"@, Tree::Text(e)),
    }
}

/// Answer one who locked or unlocked a resource.
pub fn answer_lock(result: &Result<(), String>) -> (r: Json)
    ensures
        r@ == done_or_error(
            match result {
                Ok(_) => Ok(()),
                Err(e) => Err(e@),
            },
        ),
{
    match result {
        Ok(_) => object().with("ok", Json::Bool(true)),
        Err(e) => object().with("ok", Json::Bool(false)).with("error", Json::Text(e.clone())),
    }
}

// ---------------------------------------------------------------- logs

/// A line that a machine logs.
pub struct LogEvent {
    pub vm_id: String,
    pub log_type: String,
    pub text: String,
}

/// A line that a machine logs, as texts.
pub struct Logged {
    pub vm_id: Seq<char>,
    pub log_type: Seq<char>,
    pub text: Seq<char>,
}

impl View for LogEvent {
    type V = Logged;

    open spec fn view(&self) -> Logged {
        Logged { vm_id: self.vm_id@, log_type: self.log_type@, text: self.text@ }
    }
}

/// The line that an input logs; nothing where it says nothing, or not of which machine.
pub open spec fn logged(input: Tree) -> Option<Logged> {
    let first = text_field(input, "text"@, Seq::empty());
    let text = if first.len() == 0 {
        text_field(input, "data"@, Seq::empty())
    } else {
        first
    };
    let vm = text_field(input, "vmId"@, Seq::empty());
    let kind = text_field(input, "logType"@, Seq::empty());
    if text.len() == 0 || vm.len() == 0 {
        None
    } else {
        Some(
            Logged {
                vm_id: vm,
                log_type: if kind.len() == 0 {
                    "runtime"@
                } else {
                    kind
                },
                text,
            },
        )
    }
}

/// The line that an input logs.
pub fn vm_log_event(input: &Json) -> (r: Option<LogEvent>)
    ensures
        match r {
            Some(event) => logged(input@) == Some(event@),
            None => logged(input@) is None,
        },
{
    proof {
        reveal_strlit("");
        assert(""@ =~= Seq::<char>::empty());
    }
    let mut text = check_str(input, "text", "");
    if text.as_str().is_empty() {
        text = check_str(input, "data", "");
    }
    let vm_id = check_str(input, "vmId", "");
    let mut log_type = check_str(input, "logType", "");
    if text.as_str().is_empty() || vm_id.as_str().is_empty() {
        return None;
    }
    if log_type.as_str().is_empty() {
        log_type = "runtime".to_owned();
    }
    Some(LogEvent { vm_id, log_type, text })
}

/// The program of the first link that records an instance.
pub open spec fn hosting_program(links: Seq<Seq<char>>, vm: Seq<char>) -> Option<Seq<char>>
    decreases links.len(),
{
    if links.len() == 0 {
        None
    } else if has_suffix(links[0], "::"@ + vm) && pieces(links[0], "::"@).len() >= 4 {
        Some(pieces(links[0], "::"@)[1])
    } else {
        hosting_program(links.subrange(1, links.len() as int), vm)
    }
}

fn program_of_vm(links: &Vec<String>, vm: &str) -> (r: Option<String>)
    ensures
        match r {
            Some(program) => hosting_program(texts(links@), vm@) == Some(program@),
            None => hosting_program(texts(links@), vm@) is None,
        },
{
    proof {
        reveal_strlit("::");
    }
    let suffix = join2("::", vm);
    let ghost all = texts(links@);
    let mut i: usize = 0;
    assert(all.subrange(0, all.len() as int) =~= all);
    while i < links.len()
        invariant
            i <= links@.len(),
            all == texts(links@),
            suffix@ == "::"@ + vm@,
            "::"@.len() > 0,
            hosting_program(all, vm@) == hosting_program(
                all.subrange(i as int, all.len() as int),
                vm@,
            ),
        decreases links.len() - i,
    {
        let ghost rest = all.subrange(i as int, all.len() as int);
        assert(rest[0] == links@[i as int]@);
        assert(rest.subrange(1, rest.len() as int) =~= all.subrange(i + 1, all.len() as int));
        if strip_suffix(links[i].as_str(), suffix.as_str()).is_some() {
            let parts = split(links[i].as_str(), "::");
            assert(texts(parts@).len() == parts@.len());
            if parts.len() >= 4 {
                assert(texts(parts@)[1] == parts@[1]@);
                return Some(parts[1].clone());
            }
        }
        i = i + 1;
    }
    None
}

/// Whose a machine is: the program whose instance it is, and the user who owns that
/// program's machine. `links` are the records of instances, in order, and `machines` says
/// on which machine each program is.
pub open spec fn vm_ownership(
    links: Seq<Seq<char>>,
    machines: Rows<Seq<char>>,
    creatures: CreaturesState,
    vm: Seq<char>,
) -> (Seq<char>, Seq<char>) {
    if vm.len() == 0 {
        (Seq::empty(), Seq::empty())
    } else {
        match hosting_program(links, vm) {
            None => (Seq::empty(), Seq::empty()),
            Some(program) => match lookup(machines, program) {
                None => (program, Seq::empty()),
                Some(machine) => match lookup(creatures.records, machine) {
                    None => (program, Seq::empty()),
                    Some(record) => (program, record.owner_id),
                },
            },
        }
    }
}

fn no_text() -> (r: String)
    ensures
        r@ == Seq::<char>::empty(),
{
    let empty = String::new();
    assert(empty@ =~= Seq::<char>::empty());
    empty
}

/// Whose a machine is.
pub fn resolve_vm_ownership(
    links: &Vec<String>,
    machines: &Table<String>,
    creatures: &Creatures,
    vm: &str,
) -> (r: (String, String))
    ensures
        (r.0@, r.1@) == vm_ownership(texts(links@), machines@, creatures@, vm@),
{
    if vm.is_empty() {
        return (no_text(), no_text());
    }
    match program_of_vm(links, vm) {
        None => (no_text(), no_text()),
        Some(program) => match machines.get(program.as_str()) {
            None => (program, no_text()),
            Some(machine) => match creatures.creature(machine.as_str()) {
                None => (program, no_text()),
                Some(record) => (program, record.owner_id),
            },
        },
    }
}

/// The user who follows the lines of a machine: its owner, where they asked to.
pub open spec fn follower(
    links: Rows<Seq<char>>,
    creature: Seq<char>,
    vm: Seq<char>,
    owner: Seq<char>,
) -> Option<Seq<char>> {
    if owner.len() > 0 && link_of(links, terminal_key(creature, vm, owner)) == "true"@ {
        Some(owner)
    } else {
        None
    }
}

/// The user who follows the lines of a machine.
pub fn log_follower(links: &Table<String>, creature: &str, vm: &str, owner: &str) -> (r: Option<
    String,
>)
    ensures
        match r {
            Some(user) => follower(links@, creature@, vm@, owner@) == Some(user@),
            None => follower(links@, creature@, vm@, owner@) is None,
        },
{
    if owner.is_empty() {
        return None;
    }
    proof {
        reveal_strlit("true");
        assert("true"@.len() == 4);
    }
    let head = join4("VmTerminal::", creature, "::", vm);
    let key = join3(head.as_str(), "::", owner);
    assert(key@ =~= terminal_key(creature@, vm@, owner@));
    match links.get(key.as_str()) {
        Some(text) => if same(text.as_str(), "true") {
            Some(owner.to_owned())
        } else {
            None
        },
        None => None,
    }
}

// ---------------------------------------------------------------- laws

proof fn lemma_all_changed_apart(
    own_databases: bool,
    links: Rows<Seq<char>>,
    ops: Seq<Change>,
    key: Seq<char>,
)
    requires
        forall|i: int| 0 <= i < ops.len() ==> (#[trigger] ops[i]).key != key,
    ensures
        lookup(all_changed(own_databases, links, ops), key) == lookup(links, key),
    decreases ops.len(),
{
    if ops.len() > 0 {
        let before = ops.drop_last();
        assert forall|i: int| 0 <= i < before.len() implies (#[trigger] before[i]).key != key by {
            assert(before[i] == ops[i]);
        }
        lemma_all_changed_apart(own_databases, links, before, key);
        let mid = all_changed(own_databases, links, before);
        assert(ops[ops.len() - 1].key != key);
        law_lookup_after_drop(mid, ops.last().key, key);
    }
}

/// State that a runtime keeps on the node is read back, and state that it deletes is gone.
pub proof fn law_kept_state_reads_back_until_deleted(
    own_databases: bool,
    links: Rows<Seq<char>>,
    key: Seq<char>,
    val: Seq<char>,
)
    requires
        guest_key(own_databases, key) is None,
    ensures
        ({
            let kept = all_changed(
                own_databases,
                links,
                seq![Change { op: "put"@, key, val }],
            );
            let gone = all_changed(
                own_databases,
                kept,
                seq![Change { op: "del"@, key, val }],
            );
            link_of(kept, key) == val && lookup(gone, key) is None
        }),
{
    reveal_with_fuel(all_changed, 2);
    reveal_strlit("put");
    reveal_strlit("del");
    assert("put"@[0] == 'p');
    assert("del"@[0] == 'd');
    let put = seq![Change { op: "put"@, key, val }];
    let del = seq![Change { op: "del"@, key, val }];
    assert(put.drop_last() =~= Seq::empty());
    assert(del.drop_last() =~= Seq::empty());
    assert(put.last() == (Change { op: "put"@, key, val }));
    assert(del.last() == (Change { op: "del"@, key, val }));
    let kept = all_changed(own_databases, links, put);
    law_lookup_after_drop(kept, key, key);
}

/// Changes leave every state alone that they do not name.
pub proof fn law_changes_stay_with_their_keys(
    own_databases: bool,
    links: Rows<Seq<char>>,
    ops: Seq<Change>,
    key: Seq<char>,
)
    requires
        forall|i: int| 0 <= i < ops.len() ==> (#[trigger] ops[i]).key != key,
    ensures
        link_of(all_changed(own_databases, links, ops), key) == link_of(links, key),
{
    lemma_all_changed_apart(own_databases, links, ops, key);
}

/// What a guest asks for names the caller that the host stamped, whatever the input says.
pub proof fn law_callers_are_stamped(
    op: Seq<char>,
    input: Tree,
    program: Seq<char>,
    entity: Seq<char>,
    instance: Seq<char>,
)
    ensures
        stamped_call(op, input, program, entity, instance).text("programId"@) == Some(program),
        stamped_call(op, input, program, entity, instance).text("vmId"@) == Some(instance),
{
    reveal_strlit("programId");
    reveal_strlit("vmId");
    reveal_strlit("machineId");
    reveal_strlit("entityId");
    assert("programId"@.len() == 9);
    assert("vmId"@.len() == 4);
    assert("machineId"@[0] == 'm');
    assert("programId"@[0] == 'p');
    assert("entityId"@.len() == 8);
}

} // verus!
