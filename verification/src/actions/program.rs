//! Actions on programs and their instances.
use vstd::prelude::*;

use crate::actions::{
    action, actions_of, inject_all, registered, user_guard, user_only, Action, Actor, Guard,
};

verus! {

broadcast use vstd::string::group_string_axioms;

/// The actions on programs and their instances.
pub open spec fn program_actions_listed() -> Seq<(Seq<char>, Guard)> {
    seq![
        ("/programs/create"@, user_only()),
        ("/programs/delete"@, user_only()),
        ("/programs/update"@, user_only()),
        ("/programs/runEntity"@, user_only()),
        ("/programs/stopEntity"@, user_only()),
        ("/programs/deleteEntity"@, user_only()),
        ("/machines/listEntityVms"@, user_only()),
        ("/machines/readVmLogs"@, user_only()),
        ("/machines/openVmTerminal"@, user_only()),
        ("/machines/closeVmTerminal"@, user_only()),
        ("/machines/readMachineBuilds"@, user_only()),
        ("/programs/deploy"@, user_only()),
        ("/programs/downloadEntity"@, user_only()),
        ("/machines/list"@, user_only()),
        ("/programs/list"@, user_only()),
        ("/machines/listProgramMachines"@, user_only()),
    ]
}

/// The actions on programs and their instances.
pub fn program_actions() -> (r: Vec<Action>)
    ensures
        actions_of(r@) == program_actions_listed(),
{
    let mut out: Vec<Action> = Vec::new();
    out.push(action("/programs/create", user_guard()));
    out.push(action("/programs/delete", user_guard()));
    out.push(action("/programs/update", user_guard()));
    out.push(action("/programs/runEntity", user_guard()));
    out.push(action("/programs/stopEntity", user_guard()));
    out.push(action("/programs/deleteEntity", user_guard()));
    out.push(action("/machines/listEntityVms", user_guard()));
    out.push(action("/machines/readVmLogs", user_guard()));
    out.push(action("/machines/openVmTerminal", user_guard()));
    out.push(action("/machines/closeVmTerminal", user_guard()));
    out.push(action("/machines/readMachineBuilds", user_guard()));
    out.push(action("/programs/deploy", user_guard()));
    out.push(action("/programs/downloadEntity", user_guard()));
    out.push(action("/machines/list", user_guard()));
    out.push(action("/programs/list", user_guard()));
    out.push(action("/machines/listProgramMachines", user_guard()));
    assert(actions_of(out@) =~= program_actions_listed());
    out
}

/// Register the actions on programs and their instances.
pub fn install(actor: &mut Actor)
    ensures
        final(actor)@ == registered(old(actor)@, program_actions_listed()),
{
    inject_all(actor, &program_actions());
}

} // verus!
