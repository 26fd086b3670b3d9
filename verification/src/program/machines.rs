//! The machine that owns a program: the one recorded in it, or the one that is linked to it.
use vstd::prelude::*;

use crate::creature::directory::{Creatures, CreaturesState};
use crate::table::{lookup, Rows, Table};
use crate::text::{has_prefix, has_suffix, join2, strip_prefix, strip_suffix, texts};

verus! {

broadcast use vstd::string::group_string_axioms;

/// A machine: who owns it, and the short form of its user name.
pub struct MachineRecord {
    pub id: String,
    pub owner_id: String,
    pub local_part: String,
}

/// A machine, as texts.
pub struct Machine {
    pub id: Seq<char>,
    pub owner_id: Seq<char>,
    pub local_part: Seq<char>,
}

impl View for MachineRecord {
    type V = Machine;

    open spec fn view(&self) -> Machine {
        Machine { id: self.id@, owner_id: self.owner_id@, local_part: self.local_part@ }
    }
}

/// The machines of a list.
pub open spec fn machines_of(list: Seq<MachineRecord>) -> Seq<Machine> {
    list.map_values(|m: MachineRecord| m@)
}

/// The machines that a program may belong to: the one recorded in it, and those linked to it.
pub struct ProgramMachines {
    pub recorded: MachineRecord,
    pub linked: Vec<MachineRecord>,
}

/// The machines that a program may belong to, as texts.
pub struct Machines {
    pub recorded: Machine,
    pub linked: Seq<Machine>,
}

impl View for ProgramMachines {
    type V = Machines;

    open spec fn view(&self) -> Machines {
        Machines { recorded: self.recorded@, linked: machines_of(self.linked@) }
    }
}

impl Machines {
    /// The machine that owns the program.
    pub open spec fn owner(self) -> Machine {
        owning_machine(self.recorded, self.linked)
    }
}

/// No machine.
pub open spec fn no_machine() -> Machine {
    Machine { id: Seq::empty(), owner_id: Seq::empty(), local_part: Seq::empty() }
}

/// The machine that owns a program: the recorded one where it has an owner; otherwise the
/// linked one, where there is exactly one and it has an owner; and none otherwise.
pub open spec fn owning_machine(recorded: Machine, linked: Seq<Machine>) -> Machine {
    if recorded.owner_id.len() > 0 {
        recorded
    } else if linked.len() == 1 && linked[0].owner_id.len() > 0 {
        linked[0]
    } else {
        no_machine()
    }
}

fn copy_machine(machine: &MachineRecord) -> (r: MachineRecord)
    ensures
        r@ == machine@,
{
    MachineRecord {
        id: machine.id.clone(),
        owner_id: machine.owner_id.clone(),
        local_part: machine.local_part.clone(),
    }
}

/// The machine that owns a program. The record of the program says which it is; where that
/// record is damaged, the link between machine and program does, unless there is none or
/// more than one.
pub fn resolve_program_owner_machine(
    recorded: &MachineRecord,
    linked: &Vec<MachineRecord>,
) -> (r: MachineRecord)
    ensures
        r@ == owning_machine(recorded@, machines_of(linked@)),
{
    if !recorded.owner_id.as_str().is_empty() {
        return copy_machine(recorded);
    }
    if linked.len() == 1 {
        assert(machines_of(linked@)[0] == linked@[0]@);
        if !linked[0].owner_id.as_str().is_empty() {
            return copy_machine(&linked[0]);
        }
    }
    let none = MachineRecord {
        id: String::new(),
        owner_id: String::new(),
        local_part: String::new(),
    };
    assert(none.id@ =~= Seq::<char>::empty());
    assert(none.owner_id@ =~= Seq::<char>::empty());
    assert(none.local_part@ =~= Seq::<char>::empty());
    none
}

/// The machine that a link of a program names: what stands between the two ends of its key.
pub open spec fn machine_of_link(key: Seq<char>, program: Seq<char>) -> Option<Seq<char>> {
    let head = "machinePrograms::"@;
    let rest = key.subrange(head.len() as int, key.len() as int);
    if has_prefix(key, head) && has_suffix(rest, "::"@ + program) {
        Some(rest.subrange(0, rest.len() - ("::"@ + program).len()))
    } else {
        None
    }
}

/// The machines that the links name as those of a program.
pub open spec fn linked_machines(links: Rows<Seq<char>>, program: Seq<char>) -> Seq<Seq<char>>
    decreases links.len(),
{
    if links.len() == 0 {
        Seq::empty()
    } else {
        let before = linked_machines(links.drop_last(), program);
        match machine_of_link(links.last().0, program) {
            Some(machine) => before.push(machine),
            None => before,
        }
    }
}

/// The identifiers of the machines that are linked to a program.
pub fn linked_machine_ids(links: &Table<String>, program: &str) -> (r: Vec<String>)
    ensures
        texts(r@) == linked_machines(links@, program@),
{
    let tail = join2("::", program);
    let mut out: Vec<String> = Vec::new();
    assert(texts(out@) =~= Seq::empty());
    assert(links@.subrange(0, 0) =~= Seq::empty());
    let mut i: usize = 0;
    while i < links.len()
        invariant
            i <= links@.len(),
            tail@ == "::"@ + program@,
            texts(out@) == linked_machines(links@.subrange(0, i as int), program@),
        decreases links@.len() - i,
    {
        let ghost upto = links@.subrange(0, i + 1);
        assert(upto.drop_last() =~= links@.subrange(0, i as int));
        assert(upto.last() == links@[i as int]);
        match strip_prefix(links.key_at(i), "machinePrograms::") {
            Some(rest) => match strip_suffix(rest, tail.as_str()) {
                Some(machine) => {
                    let ghost before = out@;
                    out.push(machine.to_owned());
                    assert(texts(out@) =~= texts(before).push(machine@));
                },
                None => {},
            },
            None => {},
        }
        i = i + 1;
    }
    assert(links@.subrange(0, links@.len() as int) =~= links@);
    out
}

/// A machine as the directory of creatures knows it. Its short name is not recorded there.
pub open spec fn machine_in(creatures: CreaturesState, id: Seq<char>) -> Machine {
    Machine {
        id,
        owner_id: match lookup(creatures.records, id) {
            Some(record) => record.owner_id,
            None => Seq::empty(),
        },
        local_part: Seq::empty(),
    }
}

fn find_machine(creatures: &Creatures, id: &str) -> (r: MachineRecord)
    ensures
        r@ == machine_in(creatures@, id@),
{
    let empty = String::new();
    assert(empty@ =~= Seq::<char>::empty());
    let owner_id: String = match creatures.creature(id) {
        Some(record) => record.owner_id,
        None => empty.clone(),
    };
    MachineRecord { id: id.to_owned(), owner_id, local_part: empty }
}

/// The machines that the records say a program may belong to.
pub open spec fn machines_recorded(
    creatures: CreaturesState,
    links: Rows<Seq<char>>,
    program: Seq<char>,
    machine: Seq<char>,
) -> Machines {
    Machines {
        recorded: machine_in(creatures, machine),
        linked: linked_machines(links, program).map_values(
            |id: Seq<char>| machine_in(creatures, id),
        ),
    }
}

/// Gather the machines that a program may belong to: the one that its record names, and those
/// that are linked to it.
pub fn gather_machines(
    creatures: &Creatures,
    links: &Table<String>,
    program: &str,
    machine: &str,
) -> (r: ProgramMachines)
    ensures
        r@ == machines_recorded(creatures@, links@, program@, machine@),
{
    let ids = linked_machine_ids(links, program);
    let ghost all = linked_machines(links@, program@);
    let mut linked: Vec<MachineRecord> = Vec::new();
    let mut i: usize = 0;
    while i < ids.len()
        invariant
            i <= ids@.len(),
            all == texts(ids@),
            linked@.len() == i,
            forall|j: int|
                0 <= j < i ==> (#[trigger] linked@[j])@ == machine_in(creatures@, all[j]),
        decreases ids.len() - i,
    {
        assert(all[i as int] == ids@[i as int]@);
        linked.push(find_machine(creatures, ids[i].as_str()));
        i = i + 1;
    }
    let found = ProgramMachines { recorded: find_machine(creatures, machine), linked };
    assert(found@.linked =~= machines_recorded(creatures@, links@, program@, machine@).linked);
    found
}

// ---------------------------------------------------------------- laws

/// A program whose machine has no owner belongs to the one machine that is linked to it.
pub proof fn law_a_single_link_stands_in_for_a_damaged_record(
    creatures: CreaturesState,
    links: Rows<Seq<char>>,
    program: Seq<char>,
    machine: Seq<char>,
    linked: Seq<char>,
)
    requires
        machine_in(creatures, machine).owner_id.len() == 0,
        linked_machines(links, program) == seq![linked],
        machine_in(creatures, linked).owner_id.len() > 0,
    ensures
        machines_recorded(creatures, links, program, machine).owner() == machine_in(
            creatures,
            linked,
        ),
{
}

/// Without a machine that has an owner, a program has none: whether nothing is linked to it or
/// more than one machine is.
pub proof fn law_an_unclear_owner_is_none(recorded: Machine, linked: Seq<Machine>)
    requires
        recorded.owner_id.len() == 0,
        linked.len() != 1,
    ensures
        owning_machine(recorded, linked) == no_machine(),
{
}

/// The link that a program was created with names its machine.
pub proof fn law_a_link_names_its_machine(machine: Seq<char>, program: Seq<char>)
    ensures
        machine_of_link("machinePrograms::"@ + machine + "::"@ + program, program) == Some(machine),
{
    let head = "machinePrograms::"@;
    let tail = "::"@ + program;
    let key = head + machine + "::"@ + program;
    let rest = key.subrange(head.len() as int, key.len() as int);
    assert(key.subrange(0, head.len() as int) =~= head);
    assert(rest =~= machine + tail);
    assert(rest.subrange(rest.len() - tail.len(), rest.len() - tail.len() + tail.len()) =~= tail);
    assert(rest.subrange(0, rest.len() - tail.len()) =~= machine);
}

} // verus!
