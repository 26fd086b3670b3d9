//! The catalog of programs: filing them, pointing them elsewhere, and taking them out.
use vstd::prelude::*;

use crate::json::{merged, no_fields, object, Json, Tree};
use crate::program::deploy::ProgramRecord;
use crate::table::{
    dropped, law_lookup_after_drop, law_lookup_after_store, lookup, stored, Rows, Table,
};
use crate::text::same;

verus! {

broadcast use {vstd::string::group_string_axioms, law_lookup_after_store};

/// A program, as texts.
pub struct Program {
    pub id: Seq<char>,
    pub machine_id: Seq<char>,
    pub runtime: Seq<char>,
    pub path: Seq<char>,
    pub comment: Seq<char>,
}

impl View for ProgramRecord {
    type V = Program;

    open spec fn view(&self) -> Program {
        Program {
            id: self.id@,
            machine_id: self.machine_id@,
            runtime: self.runtime@,
            path: self.path@,
            comment: self.comment@,
        }
    }
}

/// The programs of a node and their metadata, each under the id of its program.
pub struct Programs {
    pub records: Table<ProgramRecord>,
    pub metadata: Table<Json>,
}

/// The programs of a node and their metadata, as texts.
pub struct ProgramsState {
    pub records: Rows<Program>,
    pub metadata: Rows<Tree>,
}

impl View for Programs {
    type V = ProgramsState;

    open spec fn view(&self) -> ProgramsState {
        ProgramsState { records: self.records@, metadata: self.metadata@ }
    }
}

/// Why a program is left as it is.
#[derive(Clone, Copy, PartialEq, Eq, Structural, Debug)]
pub enum ProgramFault {
    NotFound,
    /// The caller does not own the machine of the program.
    NotOwner,
}

/// Metadata with a document laid over that of a program.
pub open spec fn metadata_merged(rows: Rows<Tree>, program: Seq<char>, document: Tree) -> Rows<
    Tree,
> {
    stored(
        rows,
        program,
        match lookup(rows, program) {
            Some(earlier) => merged(earlier, document),
            None => document,
        },
    )
}

fn merge_metadata(rows: &mut Table<Json>, program: &str, document: &Json)
    ensures
        final(rows)@ == metadata_merged(old(rows)@, program@, document@),
{
    let next: Json = match rows.get(program) {
        Some(earlier) => earlier.merge(document),
        None => document.copy(),
    };
    rows.put(program, next);
}

/// The catalog with a program that came about: it stands in it with metadata.
pub open spec fn program_filed(state: ProgramsState, program: Program) -> ProgramsState {
    ProgramsState {
        records: stored(state.records, program.id, program),
        metadata: metadata_merged(state.metadata, program.id, no_fields()),
    }
}

/// Whether a caller may change a program: it is there, and its machine has the caller for
/// its owner.
pub open spec fn change_refused(
    state: ProgramsState,
    machine_owners: Rows<Seq<char>>,
    caller: Seq<char>,
    program: Seq<char>,
) -> Option<ProgramFault> {
    match lookup(state.records, program) {
        None => Some(ProgramFault::NotFound),
        Some(record) => if lookup(machine_owners, record.machine_id) == Some(caller) {
            None
        } else {
            Some(ProgramFault::NotOwner)
        },
    }
}

/// The catalog with a program at another path, and with more metadata where some is given.
pub open spec fn program_updated(
    state: ProgramsState,
    machine_owners: Rows<Seq<char>>,
    caller: Seq<char>,
    program: Seq<char>,
    path: Seq<char>,
    metadata: Tree,
) -> Result<ProgramsState, ProgramFault> {
    match change_refused(state, machine_owners, caller, program) {
        Some(fault) => Err(fault),
        None => {
            let record = lookup(state.records, program)->0;
            Ok(
                ProgramsState {
                    records: stored(state.records, program, Program { path, ..record }),
                    metadata: if metadata.fields().len() > 0 {
                        metadata_merged(state.metadata, program, metadata)
                    } else {
                        state.metadata
                    },
                },
            )
        },
    }
}

/// The catalog without a program and its metadata.
pub open spec fn program_deleted(
    state: ProgramsState,
    machine_owners: Rows<Seq<char>>,
    caller: Seq<char>,
    program: Seq<char>,
) -> Result<ProgramsState, ProgramFault> {
    match change_refused(state, machine_owners, caller, program) {
        Some(fault) => Err(fault),
        None => Ok(
            ProgramsState {
                records: dropped(state.records, program),
                metadata: dropped(state.metadata, program),
            },
        ),
    }
}

impl Programs {
    /// A catalog without programs.
    pub fn new() -> (r: Self)
        ensures
            r@.records == Rows::<Program>::empty(),
            r@.metadata == Rows::<Tree>::empty(),
    {
        Programs { records: Table::new(), metadata: Table::new() }
    }

    /// File a program that came about.
    pub fn create_program(&mut self, program: ProgramRecord)
        ensures
            final(self)@ == program_filed(old(self)@, program@),
    {
        let id = program.id.clone();
        self.records.put(id.as_str(), program);
        let none = object();
        merge_metadata(&mut self.metadata, id.as_str(), &none);
    }

    fn refuse_change(&self, machine_owners: &Table<String>, caller: &str, program: &str) -> (r:
        Option<ProgramFault>)
        ensures
            r == change_refused(self@, machine_owners@, caller@, program@),
    {
        match self.records.get(program) {
            None => Some(ProgramFault::NotFound),
            Some(record) => match machine_owners.get(record.machine_id.as_str()) {
                Some(owner) => if same(owner.as_str(), caller) {
                    None
                } else {
                    Some(ProgramFault::NotOwner)
                },
                None => Some(ProgramFault::NotOwner),
            },
        }
    }

    /// Point a program at another path, and lay metadata over what it has.
    pub fn update_program(
        &mut self,
        machine_owners: &Table<String>,
        caller: &str,
        program: &str,
        path: &str,
        metadata: &Json,
    ) -> (r: Result<(), ProgramFault>)
        ensures
            match r {
                Ok(_) => program_updated(
                    old(self)@,
                    machine_owners@,
                    caller@,
                    program@,
                    path@,
                    metadata@,
                ) == Ok::<ProgramsState, ProgramFault>(final(self)@),
                Err(fault) => final(self)@ == old(self)@ && program_updated(
                    old(self)@,
                    machine_owners@,
                    caller@,
                    program@,
                    path@,
                    metadata@,
                ) == Err::<ProgramsState, ProgramFault>(fault),
            },
    {
        if let Some(fault) = self.refuse_change(machine_owners, caller, program) {
            return Err(fault);
        }
        let next = match self.records.get(program) {
            Some(record) => ProgramRecord {
                id: record.id.clone(),
                machine_id: record.machine_id.clone(),
                runtime: record.runtime.clone(),
                path: path.to_owned(),
                comment: record.comment.clone(),
            },
            None => {
                return Err(ProgramFault::NotFound);
            },
        };
        self.records.put(program, next);
        if let Some(fields) = metadata.fields() {
            if fields.len() > 0 {
                merge_metadata(&mut self.metadata, program, metadata);
            }
        }
        Ok(())
    }

    /// Take a program out, with its metadata.
    pub fn delete_program(&mut self, machine_owners: &Table<String>, caller: &str, program: &str) -> (r:
        Result<(), ProgramFault>)
        ensures
            match r {
                Ok(_) => program_deleted(old(self)@, machine_owners@, caller@, program@) == Ok::<
                    ProgramsState,
                    ProgramFault,
                >(final(self)@),
                Err(fault) => final(self)@ == old(self)@ && program_deleted(
                    old(self)@,
                    machine_owners@,
                    caller@,
                    program@,
                ) == Err::<ProgramsState, ProgramFault>(fault),
            },
    {
        if let Some(fault) = self.refuse_change(machine_owners, caller, program) {
            return Err(fault);
        }
        self.records.remove(program);
        self.metadata.remove(program);
        Ok(())
    }
}

// ---------------------------------------------------------------- laws

/// A program that was taken out is gone, with its metadata; the other programs stay.
pub proof fn law_a_deleted_program_is_gone(
    state: ProgramsState,
    machine_owners: Rows<Seq<char>>,
    caller: Seq<char>,
    program: Seq<char>,
    other: Seq<char>,
)
    requires
        program_deleted(state, machine_owners, caller, program) is Ok,
        other != program,
    ensures
        lookup(program_deleted(state, machine_owners, caller, program)->Ok_0.records, program)
            is None,
        lookup(program_deleted(state, machine_owners, caller, program)->Ok_0.metadata, program)
            is None,
        lookup(program_deleted(state, machine_owners, caller, program)->Ok_0.records, other)
            == lookup(state.records, other),
        program_deleted(
            program_deleted(state, machine_owners, caller, program)->Ok_0,
            machine_owners,
            caller,
            program,
        ) == Err::<ProgramsState, ProgramFault>(ProgramFault::NotFound),
{
    law_lookup_after_drop(state.records, program, program);
    law_lookup_after_drop(state.records, program, other);
    law_lookup_after_drop(state.metadata, program, program);
}

/// Nobody but the owner of its machine changes a program or takes it out.
pub proof fn law_only_the_owner_of_the_machine_changes_a_program(
    state: ProgramsState,
    machine_owners: Rows<Seq<char>>,
    caller: Seq<char>,
    program: Seq<char>,
    path: Seq<char>,
    metadata: Tree,
)
    requires
        lookup(state.records, program) is Some,
        lookup(machine_owners, lookup(state.records, program)->0.machine_id) != Some(caller),
    ensures
        program_updated(state, machine_owners, caller, program, path, metadata) == Err::<
            ProgramsState,
            ProgramFault,
        >(ProgramFault::NotOwner),
        program_deleted(state, machine_owners, caller, program) == Err::<
            ProgramsState,
            ProgramFault,
        >(ProgramFault::NotOwner),
{
}

} // verus!
