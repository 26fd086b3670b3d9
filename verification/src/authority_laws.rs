//! Who is whose, what a caller holds towards what it acts on, and what it is let do.
use vstd::prelude::*;

use crate::authority::{
    facts_about, first_text, grants_of, guest_caller, host_call, is_nonzero, owner_of,
    policy_question, signer, store_facts, target_name, verdict, CallerState, Known, Registration,
    SubjectKind,
};
use crate::json::Tree;
use crate::outside::parsed_url;
use crate::program::machines::machines_recorded;
use crate::table::{law_lookup_after_store, lookup, Rows};
use crate::text::{has_suffix, trimmed};

verus! {

broadcast use law_lookup_after_store;

// ---------------------------------------------------------------- owners and callers

/// A program belongs to the owner of its machine, anything else to the owner that its record
/// names, and what belongs to everyone belongs to nobody.
pub proof fn law_owners_are_those_recorded(known: Known, id: Seq<char>)
    requires
        id.len() > 0,
    ensures
        ({
            let owner = match lookup(known.programs.records, id) {
                Some(program) => machines_recorded(
                    known.creatures,
                    known.links,
                    program.id,
                    program.machine_id,
                ).owner().owner_id,
                None => match lookup(known.creatures.records, id) {
                    Some(creature) => creature.owner_id,
                    None => Seq::empty(),
                },
            };
            &&& owner != known.everyone ==> owner_of(known, id) == owner
            &&& owner == known.everyone ==> owner_of(known, id).len() == 0
        }),
{
}

/// A guest acts as its instance, or else its program; goes by its program and its creature; stands
/// for the owner of its program; and administers nothing.
pub proof fn law_guests_stand_for_the_owner_of_their_program(
    known: Known,
    vm: Seq<char>,
    program: Seq<char>,
    creature: Seq<char>,
    id: Seq<char>,
)
    ensures
        ({
            let caller = guest_caller(known, vm, program, creature);
            &&& caller.subject == Some(
                (
                    SubjectKind::Workload,
                    if vm.len() > 0 {
                        vm
                    } else {
                        program
                    },
                ),
            )
            &&& caller.ids.contains(id) == (id.len() > 0 && (id == program || id == creature))
            &&& caller.principal == owner_of(known, program)
            &&& caller.vm_id == vm
            &&& !caller.node_admin
        }),
{
    let ids = guest_caller(known, vm, program, creature).ids;
    if program.len() > 0 {
        assert(ids[0] == program);
        if creature.len() > 0 {
            assert(ids[1] == creature);
        }
    } else if creature.len() > 0 {
        assert(ids[0] == creature);
    }
}

/// One who signs acts as a user where they are human and as a creature otherwise, stands for their
/// owner or else for themselves, and administers the node exactly as its root.
pub proof fn law_signers_stand_for_their_owner(known: Known, user: Seq<char>)
    requires
        user.len() > 0,
    ensures
        ({
            let caller = signer(known, user);
            let human = lookup(known.creatures.records, user) matches Some(record)
                && record.creature_type == "human"@;
            &&& human ==> caller.subject == Some((SubjectKind::User, user))
            &&& !human ==> caller.subject == Some((SubjectKind::Creature, user))
            &&& caller.ids == seq![user]
            &&& owner_of(known, user).len() > 0 ==> caller.principal == owner_of(known, user)
            &&& owner_of(known, user).len() == 0 ==> caller.principal == user
            &&& caller.vm_id.len() == 0
            &&& caller.node_admin == (user == "1@global"@)
        }),
{
}

/// One who does not sign is nobody.
pub proof fn law_those_who_do_not_sign_are_nobody(known: Known)
    ensures
        signer(known, Seq::empty()).subject is None,
        signer(known, Seq::empty()).ids.len() == 0,
        signer(known, Seq::empty()).principal.len() == 0,
        !signer(known, Seq::empty()).node_admin,
{
}

// ---------------------------------------------------------------- what a call is about

/// The text that a call is about is the first of its fields that holds one.
pub proof fn law_the_first_named_field_counts(
    input: Tree,
    a: Seq<char>,
    b: Seq<char>,
    c: Seq<char>,
)
    ensures
        ({
            let x = trimmed(input.text_or_empty(a));
            let y = trimmed(input.text_or_empty(b));
            let z = trimmed(input.text_or_empty(c));
            let r = first_text(input, seq![a, b, c], 0);
            &&& x.len() > 0 ==> r == x
            &&& x.len() == 0 && y.len() > 0 ==> r == y
            &&& x.len() == 0 && y.len() == 0 && z.len() > 0 ==> r == z
            &&& x.len() == 0 && y.len() == 0 && z.len() == 0 ==> r.len() == 0
        }),
{
    reveal_with_fuel(first_text, 5);
}

/// What a call names under any of three fields.
pub open spec fn named_in(input: Tree, a: Seq<char>, b: Seq<char>, c: Seq<char>) -> Seq<char> {
    let x = trimmed(input.text_or_empty(a));
    let y = trimmed(input.text_or_empty(b));
    let z = trimmed(input.text_or_empty(c));
    if x.len() > 0 {
        x
    } else if y.len() > 0 {
        y
    } else if z.len() > 0 {
        z
    } else {
        Seq::empty()
    }
}

/// Whether something is the caller, the one it stands for, or belongs to that one.
pub open spec fn is_theirs(known: Known, caller: CallerState, id: Seq<char>) -> bool {
    id.len() > 0 && (caller.ids.contains(id) || caller.principal == id || caller.principal.len() > 0
        && owner_of(known, id) == caller.principal)
}

proof fn lemma_listed(list: Seq<Seq<char>>, id: Seq<char>)
    ensures
        crate::text::listed(list, id) == list.contains(id),
{
    if list.contains(id) {
        let i = choose|i: int| 0 <= i < list.len() && list[i] == id;
        assert(crate::text::listed(list, id));
    }
}

proof fn lemma_resources()
    ensures
        "creature"@.len() == 8,
        "account"@.len() == 7,
        "store"@.len() == 5,
        "program"@.len() == 7,
        "program"@ != "account"@,
        "entity"@.len() == 6,
        "workload"@.len() == 8,
        "workload"@ != "creature"@,
        "resource_store"@.len() == 14,
        "resource_entity"@.len() == 15,
        "network"@.len() == 7,
        "network"@ != "account"@,
        "network"@ != "program"@,
        "secret"@.len() == 6,
        "secret"@ != "entity"@,
{
    reveal_strlit("creature");
    reveal_strlit("account");
    reveal_strlit("store");
    reveal_strlit("program");
    reveal_strlit("entity");
    reveal_strlit("workload");
    reveal_strlit("resource_store");
    reveal_strlit("resource_entity");
    reveal_strlit("network");
    reveal_strlit("secret");
    assert("program"@[0] == 'p' && "account"@[0] == 'a' && "network"@[0] == 'n');
    assert("workload"@[0] == 'w' && "creature"@[0] == 'c');
    assert("secret"@[0] == 's' && "entity"@[0] == 'e');
}

/// A caller owns a creature that a call names exactly where it is theirs, and is it exactly where
/// they go by it; an account that is not named is the caller's own.
pub proof fn law_callers_own_their_creatures(
    known: Known,
    action: Seq<char>,
    resource: Seq<char>,
    caller: CallerState,
    input: Tree,
)
    requires
        !has_suffix(action, ".create"@),
        resource == "creature"@ || resource == "account"@,
    ensures
        ({
            let facts = facts_about(known, action, resource, caller, input);
            let target = named_in(input, "id"@, "creatureId"@, "userId"@);
            let own = resource == "account"@ && target.len() == 0;
            &&& facts.owner == (own || is_theirs(known, caller, target))
            &&& facts.same_creature == facts.owner
            &&& facts.self_resource == (own || target.len() > 0 && caller.ids.contains(target))
            &&& !facts.store_read && !facts.store_signal && !facts.store_manage
            &&& !facts.counterparty
            &&& facts.node_admin == caller.node_admin
        }),
{
    lemma_resources();
    law_the_first_named_field_counts(input, "id"@, "creatureId"@, "userId"@);
    let target = named_in(input, "id"@, "creatureId"@, "userId"@);
    let found = first_text(input, seq!["id"@, "creatureId"@, "userId"@], 0);
    if found.len() == 0 {
        assert(found =~= target);
    }
    lemma_listed(caller.ids, target);
}

/// A caller owns a program or an entity that a call names exactly where the program is theirs, or
/// it is being created.
pub proof fn law_callers_own_their_programs(
    known: Known,
    action: Seq<char>,
    resource: Seq<char>,
    caller: CallerState,
    input: Tree,
)
    requires
        resource == "program"@ || resource == "entity"@,
    ensures
        ({
            let facts = facts_about(known, action, resource, caller, input);
            let target = named_in(input, "programId"@, "id"@, "machineId"@);
            &&& facts.owner == (has_suffix(action, ".create"@) || is_theirs(known, caller, target))
            &&& facts.same_creature == facts.owner
            &&& facts.self_resource == (target.len() > 0 && caller.ids.contains(target))
            &&& !facts.counterparty
            &&& facts.node_admin == caller.node_admin
        }),
{
    lemma_resources();
    law_the_first_named_field_counts(input, "programId"@, "id"@, "machineId"@);
    let target = named_in(input, "programId"@, "id"@, "machineId"@);
    let found = first_text(input, seq!["programId"@, "id"@, "machineId"@], 0);
    if found.len() == 0 {
        assert(found =~= target);
    }
    lemma_listed(caller.ids, target);
}

/// Anyone may create a creature or a store for themselves.
pub proof fn law_creators_own_what_they_create(
    known: Known,
    action: Seq<char>,
    resource: Seq<char>,
    caller: CallerState,
    input: Tree,
)
    requires
        has_suffix(action, ".create"@),
        resource == "creature"@ || resource == "store"@,
    ensures
        facts_about(known, action, resource, caller, input).owner,
        !facts_about(known, action, resource, caller, input).self_resource,
{
    lemma_resources();
}

/// Whether anyone whom a caller goes by or stands for may do something in a store.
pub open spec fn anyone_may(
    known: Known,
    store: Seq<char>,
    members: Seq<Seq<char>>,
    right: spec_fn(crate::store::permissions::StorePermissions) -> bool,
) -> bool {
    exists|i: int|
        0 <= i < members.len() && (#[trigger] members[i]).len() > 0 && right(
            grants_of(known, store, members[i]),
        )
}

proof fn lemma_rights(known: Known, store: Seq<char>, members: Seq<Seq<char>>)
    requires
        store.len() > 0,
    ensures
        ({
            let facts = store_facts(known, store, members);
            let read = anyone_may(
                known,
                store,
                members,
                |p: crate::store::permissions::StorePermissions| p.read,
            );
            let signal = anyone_may(
                known,
                store,
                members,
                |p: crate::store::permissions::StorePermissions| p.signal,
            );
            let manage = anyone_may(
                known,
                store,
                members,
                |p: crate::store::permissions::StorePermissions| p.manage,
            );
            &&& facts.store_read == read
            &&& facts.store_signal == signal
            &&& facts.store_manage == manage
            &&& facts.owner == manage
            &&& facts.same_creature == manage
            &&& !facts.self_resource && !facts.counterparty && !facts.node_admin
        }),
    decreases members.len(),
{
    if members.len() > 0 {
        let front = members.drop_last();
        lemma_rights(known, store, front);
        lemma_anyone(
            known,
            store,
            members,
            |p: crate::store::permissions::StorePermissions| p.read,
        );
        lemma_anyone(
            known,
            store,
            members,
            |p: crate::store::permissions::StorePermissions| p.signal,
        );
        lemma_anyone(
            known,
            store,
            members,
            |p: crate::store::permissions::StorePermissions| p.manage,
        );
    }
}

proof fn lemma_anyone(
    known: Known,
    store: Seq<char>,
    members: Seq<Seq<char>>,
    right: spec_fn(crate::store::permissions::StorePermissions) -> bool,
)
    requires
        members.len() > 0,
    ensures
        anyone_may(known, store, members, right) == (anyone_may(
            known,
            store,
            members.drop_last(),
            right,
        ) || members.last().len() > 0 && right(grants_of(known, store, members.last()))),
{
    let front = members.drop_last();
    if anyone_may(known, store, front, right) {
        let i = choose|i: int|
            0 <= i < front.len() && (#[trigger] front[i]).len() > 0 && right(
                grants_of(known, store, front[i]),
            );
        assert(members[i] == front[i]);
    }
    if members.last().len() > 0 && right(grants_of(known, store, members.last())) {
        assert(members[members.len() - 1] == members.last());
    }
    if anyone_may(known, store, members, right) {
        let i = choose|i: int|
            0 <= i < members.len() && (#[trigger] members[i]).len() > 0 && right(
                grants_of(known, store, members[i]),
            );
        if i < front.len() {
            assert(front[i] == members[i]);
        }
    }
}

/// A caller reads, signals in and manages a store exactly where someone whom it goes by or stands
/// for may, and owns it exactly where it manages it.
pub proof fn law_callers_hold_the_rights_of_members(
    known: Known,
    action: Seq<char>,
    caller: CallerState,
    input: Tree,
)
    requires
        !has_suffix(action, ".create"@),
        named_in(input, "storeId"@, "id"@, "id"@).len() > 0,
    ensures
        ({
            let facts = facts_about(known, action, "store"@, caller, input);
            let store = named_in(input, "storeId"@, "id"@, "id"@);
            let members = caller.ids.push(caller.principal);
            &&& facts.store_read == anyone_may(
                known,
                store,
                members,
                |p: crate::store::permissions::StorePermissions| p.read,
            )
            &&& facts.store_signal == anyone_may(
                known,
                store,
                members,
                |p: crate::store::permissions::StorePermissions| p.signal,
            )
            &&& facts.store_manage == anyone_may(
                known,
                store,
                members,
                |p: crate::store::permissions::StorePermissions| p.manage,
            )
            &&& facts.owner == facts.store_manage
            &&& facts.node_admin == caller.node_admin
        }),
{
    lemma_resources();
    law_the_first_named_field_counts(input, "storeId"@, "id"@, "id"@);
    let store = named_in(input, "storeId"@, "id"@, "id"@);
    lemma_rights(known, store, caller.ids.push(caller.principal));
}

/// A caller owns an instance that is not its own exactly where the program that owns the instance is
/// theirs; its own, or none, where the program that the call names is theirs or it names none.
pub proof fn law_callers_own_their_instances(
    known: Known,
    action: Seq<char>,
    caller: CallerState,
    input: Tree,
)
    ensures
        ({
            let facts = facts_about(known, action, "workload"@, caller, input);
            let vm = named_in(input, "vmId"@, "vmId"@, "vmId"@);
            let program = named_in(input, "programId"@, "machineId"@, "machineId"@);
            let link = lookup(known.links, "VmOwnerProgram::"@ + vm);
            let other = vm.len() > 0 && vm != caller.vm_id;
            &&& other && link is Some ==> facts.owner == is_theirs(
                known,
                caller,
                trimmed(link->0),
            )
            &&& other ==> !facts.self_resource
            &&& !other ==> facts.owner == (program.len() == 0 || is_theirs(known, caller, program))
            &&& !other ==> facts.self_resource == (vm == caller.vm_id)
        }),
{
    lemma_resources();
    law_the_first_named_field_counts(input, "vmId"@, "vmId"@, "vmId"@);
    law_the_first_named_field_counts(input, "programId"@, "machineId"@, "machineId"@);
    let vm = named_in(input, "vmId"@, "vmId"@, "vmId"@);
    let program = named_in(input, "programId"@, "machineId"@, "machineId"@);
    let a = first_text(input, seq!["vmId"@, "vmId"@, "vmId"@], 0);
    let b = first_text(input, seq!["programId"@, "machineId"@, "machineId"@], 0);
    if a.len() == 0 {
        assert(a =~= vm);
    }
    if b.len() == 0 {
        assert(b =~= program);
    }
    lemma_listed(caller.ids, program);
    if let Some(text) = lookup(known.links, "VmOwnerProgram::"@ + vm) {
        lemma_listed(caller.ids, trimmed(text));
    }
}

/// A caller owns a resource store exactly where the machine that it belongs to is theirs; one that
/// belongs to none is owned where it is not named or is being written.
pub proof fn law_callers_own_their_resource_stores(
    known: Known,
    action: Seq<char>,
    resource: Seq<char>,
    caller: CallerState,
    input: Tree,
)
    requires
        resource == "resource_store"@ || resource == "resource_entity"@,
    ensures
        ({
            let facts = facts_about(known, action, resource, caller, input);
            let store = named_in(input, "storeId"@, "id"@, "id"@);
            let machine = lookup(known.resource_stores, store);
            &&& store.len() == 0 ==> facts.owner
            &&& store.len() > 0 && (machine is None || machine->0.len() == 0) ==> facts.owner == (
            action == "resource_store.write"@)
            &&& store.len() > 0 && machine is Some && machine->0.len() > 0 ==> facts.owner
                == is_theirs(known, caller, machine->0)
            &&& !facts.self_resource
        }),
{
    lemma_resources();
    law_the_first_named_field_counts(input, "storeId"@, "id"@, "id"@);
    let store = named_in(input, "storeId"@, "id"@, "id"@);
    let found = first_text(input, seq!["storeId"@, "id"@, "id"@], 0);
    if found.len() == 0 {
        assert(found =~= store);
    }
    if let Some(machine) = lookup(known.resource_stores, store) {
        lemma_listed(caller.ids, machine);
    }
}

// ---------------------------------------------------------------- asking and deciding

/// What a call acts on is named as its kind calls for.
pub proof fn law_calls_name_what_they_act_on(input: Tree, host: Seq<char>)
    ensures
        target_name("network"@, input, host) == host,
        target_name("store"@, input, host) =~= named_in(input, "storeId"@, "id"@, "id"@),
        target_name("resource_store"@, input, host) =~= named_in(input, "storeId"@, "id"@, "id"@),
        target_name("creature"@, input, host) =~= named_in(
            input,
            "id"@,
            "creatureId"@,
            "userId"@,
        ),
        target_name("program"@, input, host) =~= named_in(
            input,
            "programId"@,
            "id"@,
            "machineId"@,
        ),
        target_name("entity"@, input, host) =~= named_in(input, "programId"@, "id"@, "machineId"@),
        target_name("workload"@, input, host) =~= named_in(
            input,
            "vmId"@,
            "programId"@,
            "programId"@,
        ),
        target_name("secret"@, input, host) =~= named_in(
            input,
            "name"@,
            "secretName"@,
            "secretName"@,
        ),
{
    lemma_resources();
    law_the_first_named_field_counts(input, "storeId"@, "id"@, "id"@);
    law_the_first_named_field_counts(input, "id"@, "creatureId"@, "userId"@);
    law_the_first_named_field_counts(input, "programId"@, "id"@, "machineId"@);
    law_the_first_named_field_counts(input, "vmId"@, "programId"@, "programId"@);
    law_the_first_named_field_counts(input, "name"@, "secretName"@, "secretName"@);
}

/// The policy is asked exactly about registered surfaces: for the caller, the action and kind that
/// are registered, what the call is about, and what the caller holds towards it.
pub proof fn law_the_policy_is_asked_about_the_call(
    known: Known,
    surfaces: Rows<Registration>,
    surface: Seq<char>,
    caller: CallerState,
    input: Tree,
    now: i64,
)
    ensures
        (policy_question(known, surfaces, surface, caller, input, now) is Ok) == (lookup(
            surfaces,
            surface,
        ) is Some),
        policy_question(known, surfaces, surface, caller, input, now) matches Ok(question) ==> {
            let entry = lookup(surfaces, surface)->0;
            &&& question.subject == caller.subject
            &&& question.action == entry.action
            &&& question.resource_kind == entry.resource
            &&& question.facts == facts_about(known, entry.action, entry.resource, caller, input)
            &&& question.at_millis == now
            &&& entry.resource != "network"@ ==> question.resource_id == target_name(
                entry.resource,
                input,
                Seq::empty(),
            )
            &&& entry.resource == "network"@ ==> question.resource_id == (match parsed_url(
                crate::authority::url_target(input),
            ) {
                Some(url) => match url.host {
                    Some(host) => host,
                    None => Seq::empty(),
                },
                None => Seq::empty(),
            })
        },
{
    lemma_resources();
}

/// A call on a registered surface goes on exactly where the policy allows it, or where its action
/// is one of those that are only watched.
pub proof fn law_allowed_calls_go_on(
    surfaces: Rows<Registration>,
    surface: Seq<char>,
    allowed: bool,
    reason: Seq<char>,
)
    ensures
        (verdict(surfaces, surface, allowed, reason) is Ok) == (lookup(
            surfaces,
            surface,
        ) matches Some(entry) && (allowed || entry.action == "network.egress"@ || entry.action
            == "identity.session.login_by_email"@ || entry.action == "creature.list"@)),
{
}

/// A host call goes on exactly where its surface lets it; a guest that creates a creature does so
/// without funds and for its own owner, and its call otherwise stays as it is.
pub proof fn law_guests_create_creatures_for_their_owner(
    surfaces: Rows<Registration>,
    op: Seq<char>,
    allowed: bool,
    reason: Seq<char>,
    principal: Seq<char>,
    input: Tree,
    key: Seq<char>,
)
    ensures
        ({
            let creates = (op == "createCreature"@ || op == "createOwnedCreature"@) && input
                is Object;
            let outcome = host_call(surfaces, op, allowed, reason, principal, input);
            &&& (outcome is Ok) == {
                &&& verdict(surfaces, "unified-host-call "@ + op, allowed, reason) is Ok
                &&& creates ==> {
                    &&& !is_nonzero(input.field("balance"@))
                    &&& principal.len() > 0
                    &&& input.text_or_empty("ownerId"@).len() == 0 || input.text("ownerId"@)
                        == Some(principal)
                }
            }
            &&& outcome matches Ok(out) ==> {
                &&& !creates ==> out == input
                &&& creates ==> out.text("ownerId"@) == Some(principal)
                &&& creates && key != "ownerId"@ ==> out.field(key) == input.field(key)
            }
        }),
{
}

} // verus!
