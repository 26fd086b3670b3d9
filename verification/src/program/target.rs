//! Which program a call of a program is about: the one it names, once its caller is known.
use vstd::prelude::*;

use crate::json::{no_fields, object, Json, Tree};
use crate::text::{join2, same, trim, trimmed};

verus! {

broadcast use vstd::string::group_string_axioms;

/// Whether the program that a call names is the one that it is about.
pub open spec fn names_its_program(op: Seq<char>) -> bool {
    op == "deployEntity"@ || op == "deploy entity"@ || op == "deleteProgram"@ || op
        == "deleteOwnedProgram"@ || op == "updateProgram"@ || op == "getProgram"@
}

fn takes_target(op: &str) -> (r: bool)
    ensures
        r == names_its_program(op@),
{
    same(op, "deployEntity") || same(op, "deploy entity") || same(op, "deleteProgram") || same(
        op,
        "deleteOwnedProgram",
    ) || same(op, "updateProgram") || same(op, "getProgram")
}

/// The text of a field without the space around it; nothing where there is none.
pub open spec fn trimmed_text(input: Tree, key: Seq<char>) -> Seq<char> {
    trimmed(input.text_or_empty(key))
}

/// The input of a creation without what the host stamped on it. The caller's own id is the
/// stamp and no request, and a machine that is not named, or is the caller, is a default
/// over which an application wins.
pub open spec fn create_input(caller: Seq<char>, input: Tree) -> Tree {
    let one = if caller.len() > 0 && input.text("programId"@) is Some && trimmed_text(
        input,
        "programId"@,
    ) == caller {
        input.without("programId"@)
    } else {
        input
    };
    let app = trimmed_text(one, "appId"@);
    let machine = trimmed_text(one, "machineId"@);
    if app.len() > 0 && (machine.len() == 0 || machine == caller) {
        one.with("machineId"@, Tree::Text(app))
    } else {
        one
    }
}

/// Take back what the host stamped on the input of a creation.
pub fn normalize_create_input(caller: &str, input: &Json) -> (r: Json)
    requires
        input@ is Object,
    ensures
        r@ == create_input(caller@, input@),
{
    let stamped: bool = !caller.is_empty() && input.text("programId").is_some() && same(
        trim(input.text_or_empty("programId")),
        caller,
    );
    let one: Json = if stamped {
        input.without("programId")
    } else {
        input.copy()
    };
    let app = trim(one.text_or_empty("appId")).to_owned();
    let machine = trim(one.text_or_empty("machineId")).to_owned();
    if !app.as_str().is_empty() && (machine.as_str().is_empty() || same(machine.as_str(), caller)) {
        one.with("machineId", Json::Text(app))
    } else {
        one
    }
}

/// Who owns what a call is about: the caller's program, the program that it names, and the
/// machine of a program to create. An owner that is not known is empty.
pub struct TargetOwners {
    pub caller: String,
    pub target: String,
    pub machine: String,
}

/// What one who may not act is told.
pub open spec fn denied(what: Seq<char>) -> Tree {
    no_fields().with("ok"@, Tree::Bool(false)).with(
        "error"@,
        Tree::Text("you are not the owner of this "@ + what),
    )
}

fn refusal(what: &str) -> (r: Json)
    ensures
        r@ == denied(what@),
{
    object().with("ok", Json::Bool(false)).with(
        "error",
        Json::Text(join2("you are not the owner of this ", what)),
    )
}

/// Whether a caller may change a program: its own, or one of the same known owner.
pub open spec fn same_owner(caller: Seq<char>, target: Seq<char>, owners: TargetOwners) -> bool {
    caller == target || owners.target@.len() > 0 && owners.target@ == owners.caller@
}

/// The input of a call with the program that it is about, or why it is refused. The key in
/// which the program travelled is taken out of every input.
pub open spec fn targeted(
    op: Seq<char>,
    caller_program: Seq<char>,
    input: Tree,
    owners: TargetOwners,
) -> Result<Tree, Tree> {
    let caller = trimmed(caller_program);
    let rest = input.without("targetProgramId"@);
    let target = trimmed_text(input, "targetProgramId"@);
    if !(input is Object) {
        Ok(input)
    } else if op == "createProgram"@ {
        let shaped = create_input(caller, rest);
        let machine = trimmed_text(shaped, "machineId"@);
        if machine.len() > 0 && machine != caller && owners.machine@.len() > 0 && owners.machine@
            != owners.caller@ {
            Err(denied("machine"@))
        } else {
            Ok(shaped)
        }
    } else if target.len() == 0 || !names_its_program(op) {
        Ok(rest)
    } else if op != "getProgram"@ && !same_owner(caller, target, owners) {
        Err(denied("program"@))
    } else {
        Ok(rest.with("programId"@, Tree::Text(target)))
    }
}

/// Point a call at the program that its caller named, once the caller is known.
pub fn apply_program_target(
    op: &str,
    caller_program_id: &str,
    input: &Json,
    owners: &TargetOwners,
) -> (r: Result<Json, Json>)
    ensures
        match r {
            Ok(out) => targeted(op@, caller_program_id@, input@, *owners) == Ok::<Tree, Tree>(out@),
            Err(e) => targeted(op@, caller_program_id@, input@, *owners) == Err::<Tree, Tree>(e@),
        },
{
    let caller = trim(caller_program_id);
    if !input.is_object() {
        return Ok(input.copy());
    }
    let target = trim(input.text_or_empty("targetProgramId"));
    let rest = input.without("targetProgramId");
    if same(op, "createProgram") {
        let shaped = normalize_create_input(caller, &rest);
        let machine = trim(shaped.text_or_empty("machineId"));
        if !machine.is_empty() && !same(machine, caller) && !owners.machine.as_str().is_empty()
            && !same(owners.machine.as_str(), owners.caller.as_str()) {
            return Err(refusal("machine"));
        }
        return Ok(shaped);
    }
    if target.is_empty() || !takes_target(op) {
        return Ok(rest);
    }
    let allowed: bool = same(op, "getProgram") || same(caller, target) || (
    !owners.target.as_str().is_empty() && same(owners.target.as_str(), owners.caller.as_str()));
    if !allowed {
        return Err(refusal("program"));
    }
    Ok(rest.with("programId", Json::Text(target.to_owned())))
}

/// Nothing but a reading call reaches a program that neither is the caller nor has its
/// owner.
pub proof fn law_only_owners_change_programs(
    op: Seq<char>,
    caller: Seq<char>,
    input: Tree,
    owners: TargetOwners,
)
    requires
        input is Object,
        names_its_program(op),
        op != "getProgram"@,
        trimmed_text(input, "targetProgramId"@).len() > 0,
        !same_owner(trimmed(caller), trimmed_text(input, "targetProgramId"@), owners),
    ensures
        targeted(op, caller, input, owners) == Err::<Tree, Tree>(denied("program"@)),
{
    reveal_strlit("createProgram");
    reveal_strlit("deployEntity");
    reveal_strlit("deploy entity");
    reveal_strlit("deleteProgram");
    reveal_strlit("deleteOwnedProgram");
    reveal_strlit("updateProgram");
    assert("createProgram"@[0] == 'c');
    assert("deployEntity"@[0] == 'd');
    assert("deploy entity"@[0] == 'd');
    assert("deleteProgram"@[0] == 'd');
    assert("deleteOwnedProgram"@[0] == 'd');
    assert("updateProgram"@[0] == 'u');
}

} // verus!
