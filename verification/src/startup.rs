//! What the node sets up when it starts.
use vstd::prelude::*;

use crate::json::{Json, Tree};
use crate::models::ExtendedField;
use crate::outside::{private_key_of, read_private_key};
use crate::text::{
    contains_text, cut, has_prefix, listed, split_once, strip_prefix, texts,
};

verus! {

broadcast use vstd::string::group_string_axioms;

fn profile_field(name: &str, default: &str, searchable: bool, primary: bool) -> (r: ExtendedField)
    ensures
        is_profile_field(r, name@, default@, searchable, primary),
{
    ExtendedField {
        name: name.to_owned(),
        path: "metadata.public.profile".to_owned(),
        typ: "string".to_owned(),
        default: Json::Text(default.to_owned()),
        required: true,
        searchable,
        primary_prop: primary,
        get_value: None,
    }
}

/// Whether a field is a required text of a public profile with a given default.
pub open spec fn is_profile_field(
    field: ExtendedField,
    name: Seq<char>,
    default: Seq<char>,
    searchable: bool,
    primary: bool,
) -> bool {
    &&& field.name@ == name
    &&& field.path@ == "metadata.public.profile"@
    &&& field.typ@ == "string"@
    &&& field.default@ == Tree::Text(default)
    &&& field.required
    &&& field.searchable == searchable
    &&& field.primary_prop == primary
    &&& field.get_value is None
}

/// The fields that extend a user.
pub fn user_extender() -> (r: Vec<ExtendedField>)
    ensures
        r@.len() == 4,
        is_profile_field(r@[0], "name"@, "Anonymous User"@, true, true),
        is_profile_field(r@[1], "avatar"@, "avatar"@, false, true),
        is_profile_field(r@[2], "bio"@, "I'm a DecillionAI User"@, false, false),
        is_profile_field(r@[3], "location"@, "DecillionAI Land"@, false, false),
{
    let mut out: Vec<ExtendedField> = Vec::new();
    out.push(profile_field("name", "Anonymous User", true, true));
    out.push(profile_field("avatar", "avatar", false, true));
    out.push(profile_field("bio", "I'm a DecillionAI User", false, false));
    out.push(profile_field("location", "DecillionAI Land", false, false));
    out
}

/// The fields that extend a store.
pub fn store_extender() -> (r: Vec<ExtendedField>)
    ensures
        r@.len() == 2,
        is_profile_field(r@[0], "title"@, "Untitled Store"@, true, true),
        is_profile_field(r@[1], "avatar"@, "avatar"@, false, true),
{
    let mut out: Vec<ExtendedField> = Vec::new();
    out.push(profile_field("title", "Untitled Store", true, true));
    out.push(profile_field("avatar", "avatar", false, true));
    out
}

/// The machine of a key that records the type of one of its entities; empty where the key
/// does not.
pub open spec fn deployed_machine(key: Seq<char>) -> Seq<char> {
    let prefix = "link::vmEntityType::"@;
    if !has_prefix(key, prefix) {
        Seq::empty()
    } else {
        let rest = key.subrange(prefix.len() as int, key.len() as int);
        match cut(rest, "::"@) {
            Some((machine, _)) => machine,
            None => rest,
        }
    }
}

/// The machines of the keys, each once and in the order in which they first come.
pub open spec fn deployed_machines(keys: Seq<Seq<char>>) -> Seq<Seq<char>>
    decreases keys.len(),
{
    if keys.len() == 0 {
        Seq::empty()
    } else {
        let before = deployed_machines(keys.drop_last());
        let machine = deployed_machine(keys.last());
        if machine.len() == 0 || listed(before, machine) {
            before
        } else {
            before.push(machine)
        }
    }
}

/// The machines to listen for again after a restart: one listener for each machine that
/// deployed an entity.
pub fn restored_machines(keys: &Vec<String>) -> (r: Vec<String>)
    ensures
        texts(r@) == deployed_machines(texts(keys@)),
{
    let ghost all = texts(keys@);
    let mut out: Vec<String> = Vec::new();
    let mut i: usize = 0;
    assert(texts(out@) =~= Seq::empty());
    assert(all.subrange(0, 0) =~= Seq::empty());
    while i < keys.len()
        invariant
            i <= keys@.len(),
            all == texts(keys@),
            texts(out@) == deployed_machines(all.subrange(0, i as int)),
        decreases keys.len() - i,
    {
        let ghost upto = all.subrange(0, i + 1);
        assert(upto.drop_last() =~= all.subrange(0, i as int));
        assert(upto.last() == keys@[i as int]@);
        match strip_prefix(keys[i].as_str(), "link::vmEntityType::") {
            Some(rest) => {
                let machine: &str = match split_once(rest, "::") {
                    Some((machine, _)) => machine,
                    None => rest,
                };
                if !machine.is_empty() && !contains_text(&out, machine) {
                    let ghost before = out@;
                    out.push(machine.to_owned());
                    assert(texts(out@) =~= texts(before).push(machine@));
                }
            },
            None => {},
        }
        i = i + 1;
    }
    assert(all.subrange(0, all.len() as int) =~= all);
    out
}

/// No machine is listened for twice.
pub proof fn law_one_listener_for_each_machine(keys: Seq<Seq<char>>, i: int, j: int)
    requires
        0 <= i < j < deployed_machines(keys).len(),
    ensures
        deployed_machines(keys)[i] != deployed_machines(keys)[j],
    decreases keys.len(),
{
    let front = keys.drop_last();
    let before = deployed_machines(front);
    if j < before.len() {
        law_one_listener_for_each_machine(front, i, j);
    } else {
        assert(before[i] == deployed_machines(keys)[i]);
    }
}

/// Whether a server listens at a port: it does not where the port is not positive.
pub fn listens(port: i64) -> (r: bool)
    ensures
        r == (port > 0),
{
    port > 0
}

/// Read the key of the node's owner; nothing where the text holds none.
pub fn parse_owner_key(pem: &str) -> (r: Option<rsa::RsaPrivateKey>)
    ensures
        r == private_key_of(pem@),
{
    read_private_key(pem)
}

/// Why the node does not start: it has no key that can be read.
pub fn refuse_start(owner_key: &Option<rsa::RsaPrivateKey>) -> (r: Option<String>)
    ensures
        match r {
            Some(e) => owner_key is None && e@
                == "ASEMAN_NODE_PRIVATE_KEY_SECRET missing or unparseable"@,
            None => owner_key is Some,
        },
{
    match owner_key {
        Some(_) => None,
        None => Some("ASEMAN_NODE_PRIVATE_KEY_SECRET missing or unparseable".to_owned()),
    }
}

} // verus!
