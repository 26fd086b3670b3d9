//! Actions in stores.
use vstd::prelude::*;

use crate::actions::{action, actions_of, inject_all, members_only, registered, store_guard, Action, Actor, Guard, IActions};

verus! {

broadcast use vstd::string::group_string_axioms;

/// The actions in stores: each asks for an identified caller who is a member.
pub open spec fn store_actions_listed() -> Seq<(Seq<char>, Guard)> {
    seq![
        ("/stores/signal"@, members_only()),
        ("/stores/history"@, members_only()),
        ("/stores/setAccess"@, members_only()),
        ("/stores/getAccess"@, members_only()),
    ]
}

/// The actions in stores: each asks for an identified caller who is a member.
pub fn store_actions() -> (r: Vec<Action>)
    ensures
        actions_of(r@) == store_actions_listed(),
{
    let mut out: Vec<Action> = Vec::new();
    out.push(action("/stores/signal", store_guard()));
    out.push(action("/stores/history", store_guard()));
    out.push(action("/stores/setAccess", store_guard()));
    out.push(action("/stores/getAccess", store_guard()));
    assert(actions_of(out@) =~= store_actions_listed());
    out
}

/// Register the actions in stores.
pub fn install(actor: &mut Actor)
    ensures
        final(actor)@ == registered(old(actor)@, store_actions_listed()),
{
    inject_all(actor, &store_actions());
}

/// The actions in stores, as one set.
pub struct StoreActions;

impl IActions for StoreActions {
    open spec fn listed(&self) -> Seq<(Seq<char>, Guard)> {
        store_actions_listed()
    }

    fn install(&self, actor: &mut Actor) {
        inject_all(actor, &store_actions());
    }
}

} // verus!
