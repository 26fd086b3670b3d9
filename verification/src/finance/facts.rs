//! What the records of the node say of a hold that is asked for.
use vstd::prelude::*;

use crate::finance::holds::{project_in, CreateHoldInput, HoldFacts};
use crate::finance::ledger::{link_of, Ledger};
use crate::json::{no_fields, object, Json, Tree};
use crate::program::catalog::Programs;
use crate::store::membership::{
    is_member, member_key, store_metadata_key, Stores, StoresState,
};
use crate::table::{lookup, Rows};
use crate::text::join2;

verus! {

broadcast use vstd::string::group_string_axioms;

/// The project that a quote is for; empty where it is for none, or there is no such quote.
pub open spec fn quoted_project(quotes: Rows<Tree>, quote: Seq<char>) -> Seq<char> {
    match lookup(quotes, quote) {
        Some(document) => document.text_or_empty("projectId"@),
        None => Seq::empty(),
    }
}

/// The configuration of a project, where it exists: the metadata of its store, or nothing in
/// particular.
pub open spec fn project_config(stores: StoresState, project: Seq<char>) -> Option<Tree> {
    match lookup(stores.records, project) {
        None => None,
        Some(_) => Some(
            match lookup(stores.metadata, store_metadata_key(project)) {
                Some(document) => document,
                None => no_fields(),
            },
        ),
    }
}

/// Gather what the records say of a hold that is asked for: whether the payer is a member of the
/// quoted project, how the project is configured, and whether the metering program exists.
pub fn gather_hold_facts(
    stores: &Stores,
    programs: &Programs,
    ledger: &Ledger,
    payer: &str,
    input: &CreateHoldInput,
) -> (r: HoldFacts)
    ensures
        ({
            let project = quoted_project(ledger@.quotes, input.quote_id@);
            &&& r.payer_in_project == (link_of(stores@.links, member_key(payer@, project))
                == "true"@)
            &&& project_in(r) == project_config(stores@, project)
            &&& r.meter_exists == (lookup(programs@.records, input.meter_program_id@) is Some)
        }),
{
    let project: String = match ledger.quotes.get(input.quote_id.as_str()) {
        Some(document) => document.text_or_empty("projectId").to_owned(),
        None => {
            let empty = String::new();
            assert(empty@ =~= Seq::<char>::empty());
            empty
        },
    };
    let config: Option<Json> = if stores.store(project.as_str()).is_some() {
        let key = join2("StoreMeta::", project.as_str());
        match stores.metadata.get(key.as_str()) {
            Some(document) => Some(document.copy()),
            None => Some(object()),
        }
    } else {
        None
    };
    HoldFacts {
        payer_in_project: is_member(&stores.links, project.as_str(), payer),
        project: config,
        meter_exists: programs.records.has(input.meter_program_id.as_str()),
    }
}

} // verus!
