//! Actions on the identity of the node.
use vstd::prelude::*;

use crate::actions::{action, actions_of, anon_guard, anyone, inject_all, registered, Action, Actor, Guard, IActions};
use crate::outside::{byte_lists, lossy_text, read_lossy};

verus! {

broadcast use vstd::string::group_string_axioms;

/// The actions on the identity of the node.
pub open spec fn auth_actions_listed() -> Seq<(Seq<char>, Guard)> {
    seq![
        ("/auths/getServerPublicKey"@, anyone()),
        ("/auths/getServersMap"@, anyone()),
    ]
}

/// The actions on the identity of the node.
pub fn auth_actions() -> (r: Vec<Action>)
    ensures
        actions_of(r@) == auth_actions_listed(),
{
    let mut out: Vec<Action> = Vec::new();
    out.push(action("/auths/getServerPublicKey", anon_guard()));
    out.push(action("/auths/getServersMap", anon_guard()));
    assert(actions_of(out@) =~= auth_actions_listed());
    out
}

/// Register the actions on the identity of the node.
pub fn install(actor: &mut Actor)
    ensures
        final(actor)@ == registered(old(actor)@, auth_actions_listed()),
{
    inject_all(actor, &auth_actions());
}

/// The actions on the identity of the node, as one set.
pub struct AuthActions;

impl IActions for AuthActions {
    open spec fn listed(&self) -> Seq<(Seq<char>, Guard)> {
        auth_actions_listed()
    }

    fn install(&self, actor: &mut Actor) {
        inject_all(actor, &auth_actions());
    }
}

/// The public half of a key pair; empty where there is none.
pub open spec fn public_half(pair: Seq<Seq<u8>>) -> Seq<char> {
    if pair.len() > 1 {
        lossy_text(pair[1])
    } else {
        Seq::empty()
    }
}

/// The public key of the node, from its key pair.
pub fn get_server_public_key(pair: &Vec<Vec<u8>>) -> (r: String)
    ensures
        r@ == public_half(byte_lists(pair@)),
{
    if pair.len() > 1 {
        assert(byte_lists(pair@)[1] == pair@[1]@);
        read_lossy(pair[1].as_slice())
    } else {
        let empty = String::new();
        assert(empty@ =~= Seq::<char>::empty());
        empty
    }
}

/// The servers of the network: the peers of the node's chain, as they are.
pub fn get_servers_map(peers: &Vec<String>) -> (r: Vec<String>)
    ensures
        crate::text::texts(r@) == crate::text::texts(peers@),
{
    crate::text::copy_texts(peers)
}

} // verus!
