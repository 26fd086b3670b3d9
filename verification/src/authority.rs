//! Who may do what: the facts about a request that the policy decides by, and what becomes
//! of its decision.
//!
//! A request comes from a guest of the node or from a signed caller. The node works out,
//! from its own records alone, how the caller stands to the resource that the request names;
//! the policy decides on those facts.
use vstd::prelude::*;

use crate::creature::directory::{Creatures, CreaturesState};
use crate::finance::ledger::link_of;
use crate::json::{Json, Tree};
use crate::outside::{parse_url, parsed_url, UrlParts, UrlText};
use crate::program::catalog::{Programs, ProgramsState};
use crate::program::machines::{
    gather_machines, machines_recorded, resolve_program_owner_machine, Machines, ProgramMachines,
};
use crate::store::permissions::{
    access_key, parsed_permissions, read_permissions, StorePermissions,
};
use crate::table::{law_lookup_after_store, lookup, Rows, Table};
use crate::text::{
    contains_text, has_suffix, join2, join3, join4, listed, same, strip_suffix, texts, trim,
    trimmed,
};

verus! {

broadcast use {vstd::string::group_string_axioms, law_lookup_after_store};

// ---------------------------------------------------------------- what is known

/// The records of the node that say how callers stand to what they ask for: its creatures, its
/// programs, the links of its instances and machines, the links of the members of its stores,
/// and the machine that owns each resource store. `everyone` is the owner that humans are
/// recorded with, which is nobody.
pub struct Standing<'a> {
    pub creatures: &'a Creatures,
    pub programs: &'a Programs,
    pub links: &'a Table<String>,
    pub store_links: &'a Table<String>,
    pub resource_stores: &'a Table<String>,
    pub everyone: &'a str,
}

/// The records of the node, as texts.
pub struct Known {
    pub creatures: CreaturesState,
    pub programs: ProgramsState,
    pub links: Rows<Seq<char>>,
    pub store_links: Rows<Seq<char>>,
    pub resource_stores: Rows<Seq<char>>,
    pub everyone: Seq<char>,
}

impl<'a> View for Standing<'a> {
    type V = Known;

    open spec fn view(&self) -> Known {
        Known {
            creatures: self.creatures@,
            programs: self.programs@,
            links: self.links@,
            store_links: self.store_links@,
            resource_stores: self.resource_stores@,
            everyone: self.everyone@,
        }
    }
}

fn text_in(table: &Table<String>, key: &str) -> (r: String)
    ensures
        r@ == link_of(table@, key@),
{
    match table.get(key) {
        Some(text) => text.clone(),
        None => {
            let empty = String::new();
            assert(empty@ =~= Seq::<char>::empty());
            empty
        },
    }
}

/// What a member may do in a store; nothing where no grant is recorded.
pub open spec fn grants_of(known: Known, store: Seq<char>, member: Seq<char>) -> StorePermissions {
    parsed_permissions(link_of(known.store_links, access_key(store, member)))
}

/// The program that started an instance; empty where none is recorded.
pub open spec fn vm_program_of(known: Known, vm: Seq<char>) -> Seq<char> {
    trimmed(link_of(known.links, "VmOwnerProgram::"@ + vm))
}

fn vm_program(standing: &Standing, vm: &str) -> (r: String)
    ensures
        r@ == vm_program_of(standing@, vm@),
{
    let key = join2("VmOwnerProgram::", vm);
    let found = text_in(standing.links, key.as_str());
    trim(found.as_str()).to_owned()
}

/// The machine that owns a resource store; empty where there is no such store.
pub open spec fn resource_machine(known: Known, store: Seq<char>) -> Seq<char> {
    if store.len() == 0 {
        Seq::empty()
    } else {
        link_of(known.resource_stores, store)
    }
}

fn resource_store_machine(standing: &Standing, store: &str) -> (r: String)
    ensures
        r@ == resource_machine(standing@, store@),
{
    if store.is_empty() {
        let empty = String::new();
        assert(empty@ =~= Seq::<char>::empty());
        empty
    } else {
        text_in(standing.resource_stores, store)
    }
}

/// Whether a creature is a human.
pub open spec fn is_human_in(known: Known, id: Seq<char>) -> bool {
    match lookup(known.creatures.records, id) {
        Some(record) => record.creature_type == "human"@,
        None => false,
    }
}

fn is_human(standing: &Standing, id: &str) -> (r: bool)
    ensures
        r == is_human_in(standing@, id@),
{
    match standing.creatures.creature(id) {
        Some(record) => same(record.creature_type.as_str(), "human"),
        None => false,
    }
}

/// The user who owns a program or a creature, as the records say.
pub open spec fn owner_of(known: Known, id: Seq<char>) -> Seq<char> {
    owning_user(
        id,
        match lookup(known.programs.records, id) {
            Some(record) => Some(
                machines_recorded(known.creatures, known.links, record.id, record.machine_id),
            ),
            None => None,
        },
        match lookup(known.creatures.records, id) {
            Some(record) => record.owner_id,
            None => Seq::empty(),
        },
        known.everyone,
    )
}

fn owner_in(standing: &Standing, id: &str) -> (r: String)
    ensures
        r@ == owner_of(standing@, id@),
{
    let owner: String = match standing.creatures.creature(id) {
        Some(record) => record.owner_id,
        None => {
            let empty = String::new();
            assert(empty@ =~= Seq::<char>::empty());
            empty
        },
    };
    match standing.programs.records.get(id) {
        Some(record) => {
            let machines = gather_machines(
                standing.creatures,
                standing.links,
                record.id.as_str(),
                record.machine_id.as_str(),
            );
            owner_user(id, Some(&machines), owner.as_str(), standing.everyone)
        },
        None => owner_user(id, None, owner.as_str(), standing.everyone),
    }
}

/// The user who owns a program or a creature: of a program the owner of its machine, of a
/// creature its own. `program` is what is known of the machine where the identifier is that
/// of a program; `everyone` is the owner that humans are recorded with, which is nobody.
pub open spec fn owning_user(
    id: Seq<char>,
    program: Option<Machines>,
    creature_owner: Seq<char>,
    everyone: Seq<char>,
) -> Seq<char> {
    let owner = match program {
        Some(machines) => machines.owner().owner_id,
        None => creature_owner,
    };
    if id.len() == 0 || owner == everyone {
        Seq::empty()
    } else {
        owner
    }
}

/// The user who owns a program or a creature.
pub fn owner_user(
    id: &str,
    program: Option<&ProgramMachines>,
    creature_owner: &str,
    everyone: &str,
) -> (r: String)
    ensures
        r@ == owning_user(
            id@,
            match program {
                Some(machines) => Some(machines@),
                None => None,
            },
            creature_owner@,
            everyone@,
        ),
{
    let owner: String = match program {
        Some(machines) => resolve_program_owner_machine(
            &machines.recorded,
            &machines.linked,
        ).owner_id,
        None => creature_owner.to_owned(),
    };
    if id.is_empty() || same(owner.as_str(), everyone) {
        let empty = String::new();
        assert(empty@ =~= Seq::<char>::empty());
        empty
    } else {
        owner
    }
}

// ---------------------------------------------------------------- callers

/// What kind of subject a caller is.
#[derive(PartialEq, Eq, Structural, Clone, Copy)]
pub enum SubjectKind {
    User,
    Creature,
    Workload,
}

/// A subject: its kind, and the name that its identifier is made of.
pub struct Subject {
    pub kind: SubjectKind,
    pub name: String,
}

/// Who is calling: as which subject, under which names, for which user, from which
/// instance, and whether as the administrator of the node.
pub struct Caller {
    pub subject: Option<Subject>,
    pub ids: Vec<String>,
    pub principal: String,
    pub vm_id: String,
    pub node_admin: bool,
}

/// A caller, as texts.
pub struct CallerState {
    pub subject: Option<(SubjectKind, Seq<char>)>,
    pub ids: Seq<Seq<char>>,
    pub principal: Seq<char>,
    pub vm_id: Seq<char>,
    pub node_admin: bool,
}

impl View for Caller {
    type V = CallerState;

    open spec fn view(&self) -> CallerState {
        CallerState {
            subject: match self.subject {
                Some(subject) => Some((subject.kind, subject.name@)),
                None => None,
            },
            ids: texts(self.ids@),
            principal: self.principal@,
            vm_id: self.vm_id@,
            node_admin: self.node_admin,
        }
    }
}

/// The administrator of the node.
pub open spec fn node_root() -> Seq<char> {
    "1@global"@
}

/// The names that are not empty.
pub open spec fn names(a: Seq<char>, b: Seq<char>) -> Seq<Seq<char>> {
    let first = if a.len() > 0 {
        seq![a]
    } else {
        Seq::empty()
    };
    if b.len() > 0 {
        first.push(b)
    } else {
        first
    }
}

/// A guest as a caller: the instance, program, and creature that the node stamped on it.
pub open spec fn guest_caller(
    known: Known,
    vm: Seq<char>,
    program: Seq<char>,
    creature: Seq<char>,
) -> CallerState {
    CallerState {
        subject: Some(
            (
                SubjectKind::Workload,
                if vm.len() == 0 {
                    program
                } else {
                    vm
                },
            ),
        ),
        ids: names(program, creature),
        principal: owner_of(known, program),
        vm_id: vm,
        node_admin: false,
    }
}

/// A guest as a caller.
pub fn host_caller(standing: &Standing, vm: &str, program: &str, creature: &str) -> (r: Caller)
    ensures
        r@ == guest_caller(standing@, vm@, program@, creature@),
{
    let name: String = if vm.is_empty() {
        program.to_owned()
    } else {
        vm.to_owned()
    };
    let mut ids: Vec<String> = Vec::new();
    if !program.is_empty() {
        ids.push(program.to_owned());
    }
    if !creature.is_empty() {
        ids.push(creature.to_owned());
    }
    assert(texts(ids@) =~= names(program@, creature@));
    Caller {
        subject: Some(Subject { kind: SubjectKind::Workload, name }),
        ids,
        principal: owner_in(standing, program),
        vm_id: vm.to_owned(),
        node_admin: false,
    }
}

/// A signed caller; an empty name is an anonymous one.
pub open spec fn signer(known: Known, user: Seq<char>) -> CallerState {
    let owner = owner_of(known, user);
    if user.len() == 0 {
        CallerState {
            subject: None,
            ids: Seq::empty(),
            principal: Seq::empty(),
            vm_id: Seq::empty(),
            node_admin: false,
        }
    } else {
        CallerState {
            subject: Some(
                (
                    if is_human_in(known, user) {
                        SubjectKind::User
                    } else {
                        SubjectKind::Creature
                    },
                    user,
                ),
            ),
            ids: seq![user],
            principal: if owner.len() == 0 {
                user
            } else {
                owner
            },
            vm_id: Seq::empty(),
            node_admin: user == node_root(),
        }
    }
}

/// A signed caller; an empty name is an anonymous one.
pub fn shell_caller(standing: &Standing, user: &str) -> (r: Caller)
    ensures
        r@ == signer(standing@, user@),
{
    let vm_id = String::new();
    assert(vm_id@ =~= Seq::<char>::empty());
    let mut ids: Vec<String> = Vec::new();
    if user.is_empty() {
        let principal = String::new();
        assert(principal@ =~= Seq::<char>::empty());
        assert(texts(ids@) =~= Seq::empty());
        return Caller { subject: None, ids, principal, vm_id, node_admin: false };
    }
    ids.push(user.to_owned());
    assert(texts(ids@) =~= seq![user@]);
    let owner = owner_in(standing, user);
    let kind = if is_human(standing, user) {
        SubjectKind::User
    } else {
        SubjectKind::Creature
    };
    Caller {
        subject: Some(Subject { kind, name: user.to_owned() }),
        ids,
        principal: if owner.as_str().is_empty() {
            user.to_owned()
        } else {
            owner
        },
        vm_id,
        node_admin: same(user, "1@global"),
    }
}

// ---------------------------------------------------------------- facts

/// How a caller stands to the resource of a request.
#[derive(Clone, Copy)]
pub struct Facts {
    pub owner: bool,
    pub same_creature: bool,
    pub self_resource: bool,
    pub store_read: bool,
    pub store_signal: bool,
    pub store_manage: bool,
    pub counterparty: bool,
    pub node_admin: bool,
}

/// The facts of one who holds the resource, or is it.
pub open spec fn held(holds: bool, is: bool) -> Facts {
    Facts {
        owner: holds,
        same_creature: holds,
        self_resource: is,
        store_read: false,
        store_signal: false,
        store_manage: false,
        counterparty: false,
        node_admin: false,
    }
}

fn holding(holds: bool, is: bool) -> (r: Facts)
    ensures
        r == held(holds, is),
{
    Facts {
        owner: holds,
        same_creature: holds,
        self_resource: is,
        store_read: false,
        store_signal: false,
        store_manage: false,
        counterparty: false,
        node_admin: false,
    }
}

/// The trimmed text of the first listed field that has one, from the `from`th on.
pub open spec fn first_text(input: Tree, fields: Seq<Seq<char>>, from: int) -> Seq<char>
    decreases fields.len() - from,
{
    if from < 0 || from >= fields.len() {
        Seq::empty()
    } else if trimmed(input.text_or_empty(fields[from])).len() > 0 {
        trimmed(input.text_or_empty(fields[from]))
    } else {
        first_text(input, fields, from + 1)
    }
}

fn text_of<'a>(input: &'a Json, one: &str, two: &str, three: &str) -> (r: &'a str)
    ensures
        r@ == first_text(input@, seq![one@, two@, three@], 0),
{
    let ghost fields = seq![one@, two@, three@];
    proof {
        assert(fields[0] == one@ && fields[1] == two@ && fields[2] == three@);
        assert(first_text(input@, fields, 3) == Seq::<char>::empty());
    }
    let a = trim(input.text_or_empty(one));
    if !a.is_empty() {
        return a;
    }
    assert(first_text(input@, fields, 0) == first_text(input@, fields, 1));
    let b = trim(input.text_or_empty(two));
    if !b.is_empty() {
        return b;
    }
    assert(first_text(input@, fields, 1) == first_text(input@, fields, 2));
    let c = trim(input.text_or_empty(three));
    assert(first_text(input@, fields, 2) == (if c@.len() > 0 {
        c@
    } else {
        first_text(input@, fields, 3)
    }));
    proof {
        if c@.len() == 0 {
            assert(c@ =~= Seq::<char>::empty());
        }
    }
    c
}

/// The creature that a request is about.
pub open spec fn creature_target(input: Tree) -> Seq<char> {
    first_text(input, seq!["id"@, "creatureId"@, "userId"@], 0)
}

/// The store that a request is about.
pub open spec fn store_target(input: Tree) -> Seq<char> {
    first_text(input, seq!["storeId"@, "id"@, "id"@], 0)
}

/// The program that a request is about.
pub open spec fn program_target(input: Tree) -> Seq<char> {
    first_text(input, seq!["programId"@, "id"@, "machineId"@], 0)
}

/// The program that a request about an instance names beside it.
pub open spec fn instance_program(input: Tree) -> Seq<char> {
    first_text(input, seq!["programId"@, "machineId"@, "machineId"@], 0)
}

/// The instance that a request is about.
pub open spec fn instance_target(input: Tree) -> Seq<char> {
    first_text(input, seq!["vmId"@, "vmId"@, "vmId"@], 0)
}

/// Whether an identifier is one of the caller's own names.
pub open spec fn is_caller(caller: CallerState, id: Seq<char>) -> bool {
    id.len() > 0 && listed(caller.ids, id)
}

/// Whether something belongs to the caller: it is the caller, it is the user that the
/// caller acts for, or that user owns it.
pub open spec fn belongs(known: Known, caller: CallerState, id: Seq<char>) -> bool {
    &&& id.len() > 0
    &&& {
        ||| is_caller(caller, id)
        ||| id == caller.principal
        ||| caller.principal.len() > 0 && owner_of(known, id) == caller.principal
    }
}

fn is_own(caller: &Caller, id: &str) -> (r: bool)
    ensures
        r == is_caller(caller@, id@),
{
    !id.is_empty() && contains_text(&caller.ids, id)
}

fn belongs_to(standing: &Standing, caller: &Caller, id: &str) -> (r: bool)
    ensures
        r == belongs(standing@, caller@, id@),
{
    let principal = caller.principal.as_str();
    if id.is_empty() {
        return false;
    }
    if is_own(caller, id) || same(id, principal) {
        return true;
    }
    if principal.is_empty() {
        return false;
    }
    let owner = owner_in(standing, id);
    same(owner.as_str(), principal)
}

/// The facts about a store that one member's permissions give, added to others.
pub open spec fn with_grants(facts: Facts, grants: StorePermissions) -> Facts {
    Facts {
        owner: facts.owner || grants.manage,
        same_creature: facts.same_creature || grants.manage,
        store_read: facts.store_read || grants.read,
        store_signal: facts.store_signal || grants.signal,
        store_manage: facts.store_manage || grants.manage,
        ..facts
    }
}

/// The facts about a store that the permissions of the given names give.
pub open spec fn store_facts(known: Known, store: Seq<char>, members: Seq<Seq<char>>) -> Facts
    decreases members.len(),
{
    if members.len() == 0 {
        held(false, false)
    } else {
        let before = store_facts(known, store, members.drop_last());
        if store.len() == 0 || members.last().len() == 0 {
            before
        } else {
            with_grants(before, grants_of(known, store, members.last()))
        }
    }
}

fn add_grants(facts: Facts, grants: StorePermissions) -> (r: Facts)
    ensures
        r == with_grants(facts, grants),
{
    Facts {
        owner: facts.owner || grants.manage,
        same_creature: facts.same_creature || grants.manage,
        store_read: facts.store_read || grants.read,
        store_signal: facts.store_signal || grants.signal,
        store_manage: facts.store_manage || grants.manage,
        ..facts
    }
}

fn facts_of_store(standing: &Standing, caller: &Caller, store: &str) -> (r: Facts)
    ensures
        r == store_facts(standing@, store@, caller@.ids.push(caller@.principal)),
{
    let ghost all = caller@.ids;
    let mut facts = holding(false, false);
    let mut i: usize = 0;
    assert(all.subrange(0, 0) =~= Seq::empty());
    while i < caller.ids.len()
        invariant
            i <= caller.ids@.len(),
            all == texts(caller.ids@),
            facts == store_facts(standing@, store@, all.subrange(0, i as int)),
        decreases caller.ids.len() - i,
    {
        let ghost upto = all.subrange(0, i + 1);
        assert(upto.drop_last() =~= all.subrange(0, i as int));
        assert(upto.last() == caller.ids@[i as int]@);
        let member = caller.ids[i].as_str();
        if !store.is_empty() && !member.is_empty() {
            facts = add_grants(facts, read_permissions(standing.store_links, store, member));
        }
        i = i + 1;
    }
    assert(all.subrange(0, all.len() as int) =~= all);
    let ghost members = all.push(caller@.principal);
    assert(members.drop_last() =~= all);
    assert(members.last() == caller@.principal);
    let principal = caller.principal.as_str();
    if !store.is_empty() && !principal.is_empty() {
        facts = add_grants(facts, read_permissions(standing.store_links, store, principal));
    }
    facts
}

/// Whether an action creates the resource that it is about.
pub open spec fn is_creating(action: Seq<char>) -> bool {
    has_suffix(action, ".create"@)
}

/// How a caller stands to the resource of a request, but for being the administrator.
pub open spec fn standing_to(
    known: Known,
    action: Seq<char>,
    resource: Seq<char>,
    caller: CallerState,
    input: Tree,
) -> Facts {
    let creating = is_creating(action);
    if (resource == "creature"@ || resource == "account"@) && !creating {
        let target = creature_target(input);
        if target.len() == 0 && resource == "account"@ {
            held(true, true)
        } else {
            held(belongs(known, caller, target), is_caller(caller, target))
        }
    } else if (resource == "creature"@ || resource == "store"@) && creating {
        held(true, false)
    } else if resource == "store"@ {
        store_facts(known, store_target(input), caller.ids.push(caller.principal))
    } else if resource == "program"@ || resource == "entity"@ {
        let target = program_target(input);
        held(creating || belongs(known, caller, target), is_caller(caller, target))
    } else if resource == "workload"@ {
        let vm = instance_target(input);
        if vm.len() > 0 && vm != caller.vm_id {
            held(belongs(known, caller, vm_program_of(known, vm)), false)
        } else {
            let program = instance_program(input);
            held(program.len() == 0 || belongs(known, caller, program), vm == caller.vm_id)
        }
    } else if resource == "resource_store"@ || resource == "resource_entity"@ {
        let store = store_target(input);
        let machine = resource_machine(known, store);
        if machine.len() == 0 {
            held(store.len() == 0 || action == "resource_store.write"@, false)
        } else {
            held(belongs(known, caller, machine), false)
        }
    } else {
        Facts { counterparty: true, ..held(true, true) }
    }
}

/// How a caller stands to the resource of a request.
pub open spec fn facts_about(
    known: Known,
    action: Seq<char>,
    resource: Seq<char>,
    caller: CallerState,
    input: Tree,
) -> Facts {
    Facts { node_admin: caller.node_admin, ..standing_to(known, action, resource, caller, input) }
}

/// How a caller stands to the resource of a request. Only an action that creates a resource
/// makes it the caller's own; whatever exists is judged by whom it belongs to.
pub fn resolve_facts(
    standing: &Standing,
    action: &str,
    resource: &str,
    caller: &Caller,
    input: &Json,
) -> (r: Facts)
    ensures
        r == facts_about(standing@, action@, resource@, caller@, input@),
{
    let creating: bool = strip_suffix(action, ".create").is_some();
    let creature: bool = same(resource, "creature");
    let account: bool = same(resource, "account");
    let store: bool = same(resource, "store");
    let facts = if (creature || account) && !creating {
        let target = text_of(input, "id", "creatureId", "userId");
        if target.is_empty() && account {
            holding(true, true)
        } else {
            holding(belongs_to(standing, caller, target), is_own(caller, target))
        }
    } else if (creature || store) && creating {
        holding(true, false)
    } else if store {
        let target = text_of(input, "storeId", "id", "id");
        facts_of_store(standing, caller, target)
    } else if same(resource, "program") || same(resource, "entity") {
        let target = text_of(input, "programId", "id", "machineId");
        holding(creating || belongs_to(standing, caller, target), is_own(caller, target))
    } else if same(resource, "workload") {
        let vm = text_of(input, "vmId", "vmId", "vmId");
        let own: bool = same(vm, caller.vm_id.as_str());
        if !vm.is_empty() && !own {
            let program = vm_program(standing, vm);
            holding(belongs_to(standing, caller, program.as_str()), false)
        } else {
            let program = text_of(input, "programId", "machineId", "machineId");
            holding(program.is_empty() || belongs_to(standing, caller, program), own)
        }
    } else if same(resource, "resource_store") || same(resource, "resource_entity") {
        let target = text_of(input, "storeId", "id", "id");
        let machine = resource_store_machine(standing, target);
        if machine.as_str().is_empty() {
            holding(target.is_empty() || same(action, "resource_store.write"), false)
        } else {
            holding(belongs_to(standing, caller, machine.as_str()), false)
        }
    } else {
        Facts { counterparty: true, ..holding(true, true) }
    };
    Facts { node_admin: caller.node_admin, ..facts }
}

// ---------------------------------------------------------------- targets

/// The name of the resource that a request is about; `host` is the host of its URL.
pub open spec fn target_name(resource: Seq<char>, input: Tree, host: Seq<char>) -> Seq<char> {
    if resource == "network"@ {
        host
    } else if resource == "store"@ || resource == "resource_store"@ || resource
        == "resource_entity"@ {
        store_target(input)
    } else if resource == "creature"@ {
        creature_target(input)
    } else if resource == "program"@ || resource == "entity"@ {
        program_target(input)
    } else if resource == "workload"@ {
        first_text(input, seq!["vmId"@, "programId"@, "programId"@], 0)
    } else if resource == "secret"@ {
        first_text(input, seq!["name"@, "secretName"@, "secretName"@], 0)
    } else {
        Seq::empty()
    }
}

/// The URL of a request.
pub open spec fn url_target(input: Tree) -> Seq<char> {
    first_text(input, seq!["url"@, "url"@, "url"@], 0)
}

/// The host of a URL that was parsed; empty where it could not be, or has none.
pub open spec fn host_of(url: Option<UrlText>) -> Seq<char> {
    match url {
        Some(parts) => match parts.host {
            Some(host) => host,
            None => Seq::empty(),
        },
        None => Seq::empty(),
    }
}

/// The name of the resource that a request is about, where its URL was parsed.
pub fn named_target(resource: &str, input: &Json, url: &Option<UrlParts>) -> (r: String)
    ensures
        r@ == target_name(
            resource@,
            input@,
            host_of(
                match *url {
                    Some(parts) => Some(parts@),
                    None => None,
                },
            ),
        ),
{
    if same(resource, "network") {
        return match url {
            Some(parts) => match &parts.host {
                Some(host) => host.clone(),
                None => {
                    let empty = String::new();
                    assert(empty@ =~= Seq::<char>::empty());
                    empty
                },
            },
            None => {
                let empty = String::new();
                assert(empty@ =~= Seq::<char>::empty());
                empty
            },
        };
    }
    if same(resource, "store") || same(resource, "resource_store") || same(
        resource,
        "resource_entity",
    ) {
        return text_of(input, "storeId", "id", "id").to_owned();
    }
    if same(resource, "creature") {
        return text_of(input, "id", "creatureId", "userId").to_owned();
    }
    if same(resource, "program") || same(resource, "entity") {
        return text_of(input, "programId", "id", "machineId").to_owned();
    }
    if same(resource, "workload") {
        return text_of(input, "vmId", "programId", "programId").to_owned();
    }
    if same(resource, "secret") {
        return text_of(input, "name", "secretName", "secretName").to_owned();
    }
    let empty = String::new();
    assert(empty@ =~= Seq::<char>::empty());
    empty
}

/// The name of the resource that a request is about, so that a grant for one resource
/// matches no other. Outbound requests are named by the host they go to.
pub fn target_id(resource: &str, input: &Json) -> (r: String)
    ensures
        r@ == target_name(resource@, input@, host_of(parsed_url(url_target(input@)))),
{
    let url = parse_url(text_of(input, "url", "url", "url"));
    named_target(resource, input, &url)
}

// ---------------------------------------------------------------- decisions

/// Whether refusals of an action are recorded but not enforced yet.
pub open spec fn is_shadowed(action: Seq<char>) -> bool {
    action == "network.egress"@ || action == "identity.session.login_by_email"@ || action
        == "creature.list"@
}

/// Whether refusals of an action are recorded but not enforced yet.
pub fn shadowed(action: &str) -> (r: bool)
    ensures
        r == is_shadowed(action@),
{
    same(action, "network.egress") || same(action, "identity.session.login_by_email") || same(
        action,
        "creature.list",
    )
}

/// What a surface is registered for: an action, and the kind of resource it acts on.
pub struct Registered {
    pub action: String,
    pub resource: String,
}

/// What a surface is registered for, as texts.
pub struct Registration {
    pub action: Seq<char>,
    pub resource: Seq<char>,
}

impl View for Registered {
    type V = Registration;

    open spec fn view(&self) -> Registration {
        Registration { action: self.action@, resource: self.resource@ }
    }
}

/// What the policy is asked: which subject does which action on which resource, how it stands
/// to that resource, and when.
pub struct PolicyRequest {
    pub subject: Option<Subject>,
    pub action: String,
    pub resource_kind: String,
    pub resource_id: String,
    pub facts: Facts,
    pub at_millis: i64,
}

/// What the policy is asked, as texts.
pub struct PolicyQuestion {
    pub subject: Option<(SubjectKind, Seq<char>)>,
    pub action: Seq<char>,
    pub resource_kind: Seq<char>,
    pub resource_id: Seq<char>,
    pub facts: Facts,
    pub at_millis: i64,
}

impl View for PolicyRequest {
    type V = PolicyQuestion;

    open spec fn view(&self) -> PolicyQuestion {
        PolicyQuestion {
            subject: match self.subject {
                Some(subject) => Some((subject.kind, subject.name@)),
                None => None,
            },
            action: self.action@,
            resource_kind: self.resource_kind@,
            resource_id: self.resource_id@,
            facts: self.facts,
            at_millis: self.at_millis,
        }
    }
}

/// What the policy is asked about a request to a surface; a surface that is not registered is
/// refused without asking.
pub open spec fn policy_question(
    known: Known,
    surfaces: Rows<Registration>,
    surface: Seq<char>,
    caller: CallerState,
    input: Tree,
    now: i64,
) -> Result<PolicyQuestion, Seq<char>> {
    match lookup(surfaces, surface) {
        None => Err("unregistered surface "@ + surface),
        Some(entry) => Ok(
            PolicyQuestion {
                subject: caller.subject,
                action: entry.action,
                resource_kind: entry.resource,
                resource_id: target_name(
                    entry.resource,
                    input,
                    host_of(parsed_url(url_target(input))),
                ),
                facts: facts_about(known, entry.action, entry.resource, caller, input),
                at_millis: now,
            },
        ),
    }
}

/// What the policy is asked about a request to a surface.
pub fn policy_request(
    standing: &Standing,
    surfaces: &Table<Registered>,
    surface: &str,
    caller: &Caller,
    input: &Json,
    now: i64,
) -> (r: Result<PolicyRequest, String>)
    ensures
        match r {
            Ok(request) => policy_question(
                standing@,
                surfaces@,
                surface@,
                caller@,
                input@,
                now,
            ) == Ok::<PolicyQuestion, Seq<char>>(request@),
            Err(e) => policy_question(standing@, surfaces@, surface@, caller@, input@, now)
                == Err::<PolicyQuestion, Seq<char>>(e@),
        },
{
    let entry = match surfaces.get(surface) {
        Some(entry) => entry,
        None => {
            return Err(join2("unregistered surface ", surface));
        },
    };
    let subject: Option<Subject> = match &caller.subject {
        Some(subject) => Some(Subject { kind: subject.kind, name: subject.name.clone() }),
        None => None,
    };
    Ok(
        PolicyRequest {
            subject,
            action: entry.action.clone(),
            resource_kind: entry.resource.clone(),
            resource_id: target_id(entry.resource.as_str(), input),
            facts: resolve_facts(
                standing,
                entry.action.as_str(),
                entry.resource.as_str(),
                caller,
                input,
            ),
            at_millis: now,
        },
    )
}

/// What the policy is asked about a guest's call.
pub fn host_call_request(
    standing: &Standing,
    surfaces: &Table<Registered>,
    op: &str,
    caller: &Caller,
    input: &Json,
    now: i64,
) -> (r: Result<PolicyRequest, String>)
    ensures
        match r {
            Ok(request) => policy_question(
                standing@,
                surfaces@,
                "unified-host-call "@ + op@,
                caller@,
                input@,
                now,
            ) == Ok::<PolicyQuestion, Seq<char>>(request@),
            Err(e) => policy_question(
                standing@,
                surfaces@,
                "unified-host-call "@ + op@,
                caller@,
                input@,
                now,
            ) == Err::<PolicyQuestion, Seq<char>>(e@),
        },
{
    let surface = join2("unified-host-call ", op);
    policy_request(standing, surfaces, surface.as_str(), caller, input, now)
}

/// What the policy is asked about a signed action; an empty name is an anonymous caller.
pub fn shell_action_request(
    standing: &Standing,
    surfaces: &Table<Registered>,
    path: &str,
    user: &str,
    input: &Json,
    now: i64,
) -> (r: Result<PolicyRequest, String>)
    ensures
        match r {
            Ok(request) => policy_question(
                standing@,
                surfaces@,
                "signed-shell-action "@ + path@,
                signer(standing@, user@),
                input@,
                now,
            ) == Ok::<PolicyQuestion, Seq<char>>(request@),
            Err(e) => policy_question(
                standing@,
                surfaces@,
                "signed-shell-action "@ + path@,
                signer(standing@, user@),
                input@,
                now,
            ) == Err::<PolicyQuestion, Seq<char>>(e@),
        },
{
    let surface = join2("signed-shell-action ", path);
    let caller = shell_caller(standing, user);
    policy_request(standing, surfaces, surface.as_str(), &caller, input, now)
}

/// What the policy decided, and the code of its reason.
pub struct Decision {
    pub allowed: bool,
    pub reason: String,
}

/// What becomes of a request to a surface once the policy decided.
pub open spec fn verdict(
    surfaces: Rows<Registration>,
    surface: Seq<char>,
    allowed: bool,
    reason: Seq<char>,
) -> Result<(), Seq<char>> {
    match lookup(surfaces, surface) {
        None => Err("unregistered surface "@ + surface),
        Some(entry) => if allowed || is_shadowed(entry.action) {
            Ok(())
        } else {
            Err("not authorized: "@ + entry.action + " ("@ + reason + ")"@)
        },
    }
}

/// Enforce the decision on a request to a surface. A surface that is not registered is
/// refused.
pub fn decide_surface(surfaces: &Table<Registered>, surface: &str, decision: &Decision) -> (r:
    Result<(), String>)
    ensures
        match r {
            Ok(_) => verdict(surfaces@, surface@, decision.allowed, decision.reason@) is Ok,
            Err(e) => verdict(surfaces@, surface@, decision.allowed, decision.reason@) == Err::<
                (),
                Seq<char>,
            >(e@),
        },
{
    match surfaces.get(surface) {
        None => Err(join2("unregistered surface ", surface)),
        Some(entry) => if decision.allowed || shadowed(entry.action.as_str()) {
            Ok(())
        } else {
            let head = join4(
                "not authorized: ",
                entry.action.as_str(),
                " (",
                decision.reason.as_str(),
            );
            Err(join2(head.as_str(), ")"))
        },
    }
}

/// What the audit trail says of a request: which action on which resource was decided how and
/// when, and whether its refusal was recorded only.
pub struct AuditEntry {
    pub action: String,
    pub target: String,
    pub decision: String,
    pub occurred_at_millis: i64,
    pub shadow: bool,
}

/// The entry of a request in the audit trail.
pub fn audit_entry(request: &PolicyRequest, decision: &Decision) -> (r: AuditEntry)
    ensures
        r.action@ == request@.action,
        r.target@ == request@.resource_kind + ":"@ + request@.resource_id,
        r.decision@ == decision.reason@,
        r.occurred_at_millis == request@.at_millis,
        r.shadow == (!decision.allowed && is_shadowed(request@.action)),
{
    AuditEntry {
        action: request.action.clone(),
        target: join3(request.resource_kind.as_str(), ":", request.resource_id.as_str()),
        decision: decision.reason.clone(),
        occurred_at_millis: request.at_millis,
        shadow: !decision.allowed && shadowed(request.action.as_str()),
    }
}

// ---------------------------------------------------------------- creations by guests

/// Whether a value is a number other than zero.
pub open spec fn is_nonzero(value: Option<Tree>) -> bool {
    match value {
        Some(Tree::Whole(n)) => n != 0,
        Some(Tree::Real { text, .. }) => text != "0.0"@ && text != "-0.0"@,
        _ => false,
    }
}

fn nonzero(value: Option<&Json>) -> (r: bool)
    ensures
        r == is_nonzero(
            match value {
                Some(v) => Some(v@),
                None => None,
            },
        ),
{
    match value {
        Some(Json::Whole(n)) => *n != 0,
        Some(Json::Real { text, .. }) => !same(text.as_str(), "0.0") && !same(
            text.as_str(),
            "-0.0",
        ),
        _ => false,
    }
}

/// Whether a call creates a creature.
pub open spec fn creates_creature(op: Seq<char>) -> bool {
    op == "createCreature"@ || op == "createOwnedCreature"@
}

/// The input of a guest's call as the node takes it: a creature that a guest creates is
/// unfunded and belongs to the user that the guest acts for.
pub open spec fn shaped(op: Seq<char>, principal: Seq<char>, input: Tree) -> Result<
    Tree,
    Seq<char>,
> {
    let requested = input.text_or_empty("ownerId"@);
    if !creates_creature(op) || !(input is Object) {
        Ok(input)
    } else if is_nonzero(input.field("balance"@)) {
        Err("a guest cannot fund a creature it creates"@)
    } else if principal.len() == 0 {
        Err("the caller has no owner to create creatures for"@)
    } else if requested.len() > 0 && requested != principal {
        Err("a guest creates creatures only for its own owner"@)
    } else {
        Ok(input.with("ownerId"@, Tree::Text(principal)))
    }
}

/// Give a creation by a guest the shape that it may have.
pub fn shape_guest_creation(op: &str, principal: &str, input: Json) -> (r: Result<Json, String>)
    ensures
        match r {
            Ok(out) => shaped(op@, principal@, input@) == Ok::<Tree, Seq<char>>(out@),
            Err(e) => shaped(op@, principal@, input@) == Err::<Tree, Seq<char>>(e@),
        },
{
    let creates: bool = same(op, "createCreature") || same(op, "createOwnedCreature");
    if !creates || !input.is_object() {
        return Ok(input);
    }
    if nonzero(input.field("balance")) {
        return Err("a guest cannot fund a creature it creates".to_owned());
    }
    if principal.is_empty() {
        return Err("the caller has no owner to create creatures for".to_owned());
    }
    let requested = input.text_or_empty("ownerId");
    if !requested.is_empty() && !same(requested, principal) {
        return Err("a guest creates creatures only for its own owner".to_owned());
    }
    Ok(input.with("ownerId", Json::Text(principal.to_owned())))
}

/// What becomes of a guest's call: the input as the node takes it.
pub open spec fn host_call(
    surfaces: Rows<Registration>,
    op: Seq<char>,
    allowed: bool,
    reason: Seq<char>,
    principal: Seq<char>,
    input: Tree,
) -> Result<Tree, Seq<char>> {
    match verdict(surfaces, "unified-host-call "@ + op, allowed, reason) {
        Err(e) => Err(e),
        Ok(_) => shaped(op, principal, input),
    }
}

/// Enforce the decision on a guest's call, and give its input the shape that it may have.
pub fn authorize_host_call(
    surfaces: &Table<Registered>,
    op: &str,
    decision: &Decision,
    caller: &Caller,
    input: Json,
) -> (r: Result<Json, String>)
    ensures
        match r {
            Ok(out) => host_call(
                surfaces@,
                op@,
                decision.allowed,
                decision.reason@,
                caller@.principal,
                input@,
            ) == Ok::<Tree, Seq<char>>(out@),
            Err(e) => host_call(
                surfaces@,
                op@,
                decision.allowed,
                decision.reason@,
                caller@.principal,
                input@,
            ) == Err::<Tree, Seq<char>>(e@),
        },
{
    let surface = join2("unified-host-call ", op);
    match decide_surface(surfaces, surface.as_str(), decision) {
        Ok(_) => shape_guest_creation(op, caller.principal.as_str(), input),
        Err(e) => Err(e),
    }
}

/// Enforce the decision on a signed action.
pub fn authorize_shell_action(surfaces: &Table<Registered>, path: &str, decision: &Decision) -> (r:
    Result<(), String>)
    ensures
        match r {
            Ok(_) => verdict(
                surfaces@,
                "signed-shell-action "@ + path@,
                decision.allowed,
                decision.reason@,
            ) is Ok,
            Err(e) => verdict(
                surfaces@,
                "signed-shell-action "@ + path@,
                decision.allowed,
                decision.reason@,
            ) == Err::<(), Seq<char>>(e@),
        },
{
    let surface = join2("signed-shell-action ", path);
    decide_surface(surfaces, surface.as_str(), decision)
}

// ---------------------------------------------------------------- laws

/// A surface that is not registered is refused, without asking the policy and whatever it
/// might have decided.
pub proof fn law_unregistered_surfaces_are_refused(
    known: Known,
    surfaces: Rows<Registration>,
    surface: Seq<char>,
    caller: CallerState,
    input: Tree,
    now: i64,
    allowed: bool,
    reason: Seq<char>,
)
    requires
        lookup(surfaces, surface) is None,
    ensures
        policy_question(known, surfaces, surface, caller, input, now) is Err,
        verdict(surfaces, surface, allowed, reason) == Err::<(), Seq<char>>(
            "unregistered surface "@ + surface,
        ),
{
}

/// Nobody but the node's root identity is an administrator, and no guest ever is.
pub proof fn law_only_the_root_administers(
    known: Known,
    user: Seq<char>,
    vm: Seq<char>,
    program: Seq<char>,
    creature: Seq<char>,
    action: Seq<char>,
    resource: Seq<char>,
    input: Tree,
)
    ensures
        facts_about(known, action, resource, signer(known, user), input).node_admin == (user
            == node_root()),
        !facts_about(
            known,
            action,
            resource,
            guest_caller(known, vm, program, creature),
            input,
        ).node_admin,
{
    reveal_strlit("1@global");
}

/// An anonymous caller owns no creature, no program, and no store that exists.
pub proof fn law_anonymous_callers_own_nothing(
    known: Known,
    action: Seq<char>,
    resource: Seq<char>,
    input: Tree,
)
    requires
        !is_creating(action),
        resource == "creature"@ || resource == "program"@ || resource == "entity"@ || resource
            == "store"@,
    ensures
        ({
            let facts = facts_about(known, action, resource, signer(known, Seq::empty()), input);
            !facts.owner && !facts.self_resource && !facts.store_read && !facts.store_signal
                && !facts.store_manage
        }),
{
    reveal_strlit("creature");
    reveal_strlit("account");
    reveal_strlit("store");
    reveal_strlit("program");
    reveal_strlit("entity");
    assert("creature"@.len() == 8);
    assert("store"@.len() == 5);
    assert("program"@.len() == 7 && "program"@[0] == 'p');
    assert("account"@.len() == 7 && "account"@[0] == 'a');
    assert("entity"@.len() == 6);
    let caller = signer(known, Seq::empty());
    let members = caller.ids.push(caller.principal);
    assert(members.drop_last() =~= Seq::empty());
    assert(members.last().len() == 0);
    assert(store_facts(known, store_target(input), members.drop_last()) == held(false, false));
    assert(store_facts(known, store_target(input), members) == held(false, false));
}

/// A creature that a guest creates belongs to the user that the guest acts for, whatever
/// the guest asked for.
pub proof fn law_guests_create_only_for_their_owner(
    op: Seq<char>,
    principal: Seq<char>,
    input: Tree,
    out: Tree,
)
    requires
        creates_creature(op),
        input is Object,
        shaped(op, principal, input) == Ok::<Tree, Seq<char>>(out),
    ensures
        principal.len() > 0,
        out.text_or_empty("ownerId"@) == principal,
        !is_nonzero(out.field("balance"@)),
{
    reveal_strlit("ownerId");
    reveal_strlit("balance");
    assert("ownerId"@[0] == 'o');
    assert("balance"@[0] == 'b');
}

/// A member's standing in a store is exactly what the permissions of the caller's names and
/// of the user it acts for give: without one of them it has none.
pub proof fn law_stores_follow_membership(
    known: Known,
    action: Seq<char>,
    caller: CallerState,
    input: Tree,
)
    requires
        !is_creating(action),
        forall|i: int|
            0 <= i < caller.ids.len() ==> grants_of(
                known,
                store_target(input),
                #[trigger] caller.ids[i],
            ) == (StorePermissions { read: false, signal: false, manage: false }),
        grants_of(known, store_target(input), caller.principal) == (StorePermissions {
            read: false,
            signal: false,
            manage: false,
        }),
    ensures
        ({
            let facts = facts_about(known, action, "store"@, caller, input);
            !facts.owner && !facts.store_read && !facts.store_signal && !facts.store_manage
        }),
{
    reveal_strlit("creature");
    reveal_strlit("account");
    reveal_strlit("store");
    assert("store"@.len() != "creature"@.len());
    assert("store"@.len() != "account"@.len());
    let store = store_target(input);
    let members = caller.ids.push(caller.principal);
    lemma_no_grants(known, store, caller.ids);
    assert(members.drop_last() =~= caller.ids);
}

proof fn lemma_no_grants(known: Known, store: Seq<char>, members: Seq<Seq<char>>)
    requires
        forall|i: int|
            0 <= i < members.len() ==> grants_of(known, store, #[trigger] members[i]) == (StorePermissions {
                read: false,
                signal: false,
                manage: false,
            }),
    ensures
        store_facts(known, store, members) == held(false, false),
    decreases members.len(),
{
    if members.len() > 0 {
        lemma_no_grants(known, store, members.drop_last());
        assert(grants_of(known, store, members[members.len() - 1]) == (StorePermissions {
            read: false,
            signal: false,
            manage: false,
        }));
    }
}

} // verus!
