//! The actions of the node, and who may reach them.
pub mod auth;
pub mod creature;
pub mod program;
pub mod store;

use vstd::prelude::*;

use crate::finance::ledger::link_of;
use crate::store::membership::{is_member, member_key};
use crate::table::{law_lookup_after_store, stored, Rows, Table};

verus! {

broadcast use {vstd::string::group_string_axioms, law_lookup_after_store};

/// What is asked of a caller before an action runs: to be identified, to be a member of the
/// store that the action is addressed to, and whether an applet may sign for them.
#[derive(Clone, Copy, PartialEq, Eq, Structural, Debug)]
pub struct Guard {
    pub is_user: bool,
    pub is_in_store: bool,
    pub allow_applet_sign: bool,
}

impl View for Guard {
    type V = Guard;

    open spec fn view(&self) -> Guard {
        *self
    }
}

/// The guard of an identified caller, or of an applet that signs for one.
pub open spec fn user_only() -> Guard {
    Guard { is_user: true, is_in_store: false, allow_applet_sign: true }
}

/// The guard of an identified caller who signs in person.
pub open spec fn signer_only() -> Guard {
    Guard { is_user: true, is_in_store: false, allow_applet_sign: false }
}

/// The guard that lets everyone pass.
pub open spec fn anyone() -> Guard {
    Guard { is_user: false, is_in_store: false, allow_applet_sign: false }
}

/// The guard of an identified member of the store.
pub open spec fn members_only() -> Guard {
    Guard { is_user: true, is_in_store: true, allow_applet_sign: true }
}

/// Whether a guard lets a caller pass to an action that is addressed to a store: who has to be
/// identified is, and who has to be a member of the store is recorded as one.
pub open spec fn lets_pass(
    guard: Guard,
    links: Rows<Seq<char>>,
    caller: Seq<char>,
    store: Seq<char>,
) -> bool {
    &&& guard.is_user ==> caller.len() > 0
    &&& guard.is_in_store ==> link_of(links, member_key(caller, store)) == "true"@
}

/// Whether a guard lets a caller pass to an action that is addressed to a store.
pub fn passes(guard: Guard, links: &Table<String>, caller: &str, store: &str) -> (r: bool)
    ensures
        r == lets_pass(guard, links@, caller@, store@),
{
    (!guard.is_user || !caller.is_empty()) && (!guard.is_in_store || is_member(
        links,
        store,
        caller,
    ))
}

/// The guard of an identified caller, or of an applet that signs for one.
pub fn user_guard() -> (r: Guard)
    ensures
        r == user_only(),
{
    Guard { is_user: true, is_in_store: false, allow_applet_sign: true }
}

/// The guard of an identified caller who signs in person.
pub fn finance_guard() -> (r: Guard)
    ensures
        r == signer_only(),
{
    Guard { is_user: true, is_in_store: false, allow_applet_sign: false }
}

/// The guard that lets everyone pass.
pub fn anon_guard() -> (r: Guard)
    ensures
        r == anyone(),
{
    Guard { is_user: false, is_in_store: false, allow_applet_sign: false }
}

/// The guard of an identified member of the store. What a member may do there is asked by
/// the action itself.
pub fn store_guard() -> (r: Guard)
    ensures
        r == members_only(),
{
    Guard { is_user: true, is_in_store: true, allow_applet_sign: true }
}

/// An action: the path it is reached by, and its guard.
pub struct Action {
    pub path: String,
    pub guard: Guard,
}

impl View for Action {
    type V = (Seq<char>, Guard);

    open spec fn view(&self) -> (Seq<char>, Guard) {
        (self.path@, self.guard)
    }
}

/// The actions of a list.
pub open spec fn actions_of(list: Seq<Action>) -> Seq<(Seq<char>, Guard)> {
    list.map_values(|a: Action| a@)
}

/// An action of a path.
pub fn action(path: &str, guard: Guard) -> (r: Action)
    ensures
        r@ == (path@, guard),
{
    Action { path: path.to_owned(), guard }
}

/// The actions that the node serves, by path.
pub struct Actor {
    pub actions: Table<Guard>,
}

impl View for Actor {
    type V = Rows<Guard>;

    open spec fn view(&self) -> Rows<Guard> {
        self.actions@
    }
}

impl Actor {
    /// A node that serves nothing.
    pub fn new() -> (r: Self)
        ensures
            r@.len() == 0,
    {
        Actor { actions: Table::new() }
    }

    /// Serve an action.
    pub fn inject_secure_action(&mut self, action: &Action)
        ensures
            final(self)@ == stored(old(self)@, action@.0, action@.1),
    {
        self.actions.put(action.path.as_str(), action.guard);
    }

    /// The guard of the action at a path.
    pub fn fetch_action(&self, path: &str) -> (r: Option<Guard>)
        ensures
            r == crate::table::lookup(self@, path@),
    {
        match self.actions.get(path) {
            Some(guard) => Some(*guard),
            None => None,
        }
    }
}

/// The actions with some more.
pub open spec fn registered(actions: Rows<Guard>, list: Seq<(Seq<char>, Guard)>) -> Rows<Guard>
    decreases list.len(),
{
    if list.len() == 0 {
        actions
    } else {
        stored(registered(actions, list.drop_last()), list.last().0, list.last().1)
    }
}

/// Serve some more actions.
pub fn inject_all(actor: &mut Actor, list: &Vec<Action>)
    ensures
        final(actor)@ == registered(old(actor)@, actions_of(list@)),
{
    let ghost all = actions_of(list@);
    let ghost start = actor@;
    let mut i: usize = 0;
    assert(all.subrange(0, 0) =~= Seq::empty());
    while i < list.len()
        invariant
            i <= list@.len(),
            all == actions_of(list@),
            actor@ == registered(start, all.subrange(0, i as int)),
        decreases list.len() - i,
    {
        let ghost upto = all.subrange(0, i + 1);
        assert(upto.drop_last() =~= all.subrange(0, i as int));
        assert(upto.last() == list@[i as int]@);
        actor.inject_secure_action(&list[i]);
        i = i + 1;
    }
    assert(all.subrange(0, all.len() as int) =~= all);
}

/// A set of actions that can be installed on a node.
pub trait IActions {
    spec fn listed(&self) -> Seq<(Seq<char>, Guard)>;

    /// Serve the actions of the set.
    fn install(&self, actor: &mut Actor)
        ensures
            final(actor)@ == registered(old(actor)@, self.listed()),
    ;
}

} // verus!
