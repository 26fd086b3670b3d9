//! The registry of creature types: what a new creature of a type starts with.
use vstd::prelude::*;

use crate::json::{no_fields, object, object_in, object_of, Json, Tree};
use crate::outside::{json_read, parsed_json};
use crate::table::{law_lookup_after_store, lookup, stored, Rows, Table};
use crate::text::{join2, same};

verus! {

broadcast use {vstd::string::group_string_axioms, law_lookup_after_store};

/// The spec of a registered type; an empty one counts as missing.
pub open spec fn registered_type(types: Rows<Tree>, name: Seq<char>) -> Option<Tree> {
    match lookup(types, name) {
        Some(spec) => if spec.fields().len() > 0 {
            Some(spec)
        } else {
            None
        },
        None => None,
    }
}

/// The spec of a registered type.
pub fn get_creature_type(types: &Table<Json>, name: &str) -> (r: Option<Json>)
    ensures
        match r {
            Some(spec) => registered_type(types@, name@) == Some(spec@),
            None => registered_type(types@, name@) is None,
        },
{
    match types.get(name) {
        Some(spec) => match spec.fields() {
            Some(fields) => if fields.len() > 0 {
                Some(spec.copy())
            } else {
                None
            },
            None => None,
        },
        None => None,
    }
}

/// The types with a spec put in place; a spec that is no object is refused.
pub open spec fn type_put(types: Rows<Tree>, name: Seq<char>, spec: Tree) -> Result<
    Rows<Tree>,
    Seq<char>,
> {
    if spec is Object {
        Ok(stored(types, name, spec))
    } else {
        Err("a creature type spec must be a JSON object"@)
    }
}

/// Put the spec of a type in place.
pub fn put_creature_type(types: &mut Table<Json>, name: &str, spec: &Json) -> (r: Result<
    (),
    String,
>)
    ensures
        match r {
            Ok(_) => type_put(old(types)@, name@, spec@) == Ok::<Rows<Tree>, Seq<char>>(
                final(types)@,
            ),
            Err(e) => final(types)@ == old(types)@ && type_put(old(types)@, name@, spec@) == Err::<
                Rows<Tree>,
                Seq<char>,
            >(e@),
        },
{
    if !spec.is_object() {
        return Err("a creature type spec must be a JSON object".to_owned());
    }
    types.put(name, spec.copy());
    Ok(())
}

/// Put the spec of a type in place that a text reads as.
pub fn put_creature_type_text(types: &mut Table<Json>, name: &str, spec: &str) -> (r: Result<
    (),
    String,
>)
    ensures
        match object_in(parsed_json(spec@)) {
            Some(tree) => r is Ok && final(types)@ == stored(old(types)@, name@, tree),
            None => final(types)@ == old(types)@ && (r matches Err(e) && e@
                == "a creature type spec must be a JSON object"@),
        },
{
    match object_of(json_read(spec)) {
        Some(read) => put_creature_type(types, name, &read),
        None => Err("a creature type spec must be a JSON object".to_owned()),
    }
}

/// The types with one more, unless it is registered or its spec is no object.
pub open spec fn type_added(types: Rows<Tree>, name: Seq<char>, spec: Tree) -> Rows<Tree> {
    if registered_type(types, name) is Some || !(spec is Object) {
        types
    } else {
        stored(types, name, spec)
    }
}

/// Register a type that is not registered yet.
pub fn register_creature_type_if_absent(types: &mut Table<Json>, name: &str, spec: &Json)
    ensures
        final(types)@ == type_added(old(types)@, name@, spec@),
{
    if get_creature_type(&*types, name).is_some() {
        return;
    }
    if spec.is_object() {
        types.put(name, spec.copy());
    }
}

/// The initial balance that humans were granted by earlier nodes.
pub open spec fn legacy_human_balance() -> i64 {
    1_000_000_000_000_000i64
}

/// The types after the grant of earlier nodes was taken back. A balance that the host chose
/// is left alone.
pub open spec fn grant_migrated(types: Rows<Tree>) -> Rows<Tree> {
    match registered_type(types, "human"@) {
        None => types,
        Some(spec) => if spec.whole("initialBalance"@) == Some(legacy_human_balance()) {
            stored(types, "human"@, spec.with("initialBalance"@, Tree::Whole(0)))
        } else {
            types
        },
    }
}

/// Take back the grant of earlier nodes.
pub fn migrate_legacy_human_balance(types: &mut Table<Json>)
    ensures
        final(types)@ == grant_migrated(old(types)@),
{
    let spec = match get_creature_type(&*types, "human") {
        Some(spec) => spec,
        None => {
            return;
        },
    };
    match spec.whole("initialBalance") {
        Some(balance) => if balance == 1_000_000_000_000_000 {
            let next = spec.with("initialBalance", Json::Whole(0));
            types.put("human", next);
        },
        None => {},
    }
}

/// The spec of a type that the node brings itself.
pub open spec fn builtin_type(desc: Seq<char>) -> Tree {
    no_fields().with("initialBalance"@, Tree::Whole(0)).with(
        "customFields"@,
        Tree::Array(Seq::empty()),
    ).with("desc"@, Tree::Text(desc))
}

fn builtin(desc: &str) -> (r: Json)
    ensures
        r@ == builtin_type(desc@),
{
    let none: Vec<Json> = Vec::new();
    proof {
        crate::json::lemma_array(none);
        assert(crate::json::items_of(none@) =~= Seq::empty());
    }
    object().with("initialBalance", Json::Whole(0)).with("customFields", Json::Array(none)).with(
        "desc",
        Json::Text(desc.to_owned()),
    )
}

/// The types after the node's own were registered.
pub open spec fn types_installed(types: Rows<Tree>) -> Rows<Tree> {
    grant_migrated(
        type_added(
            type_added(
                types,
                "human"@,
                builtin_type("The primary human being on the network."@),
            ),
            "machine"@,
            builtin_type("A non-human being that can own programs."@),
        ),
    )
}

/// Register the node's own types. Doing so again changes nothing.
pub fn install_creature_types(types: &mut Table<Json>)
    ensures
        final(types)@ == types_installed(old(types)@),
{
    let human = builtin("The primary human being on the network.");
    let machine = builtin("A non-human being that can own programs.");
    register_creature_type_if_absent(types, "human", &human);
    register_creature_type_if_absent(types, "machine", &machine);
    migrate_legacy_human_balance(types);
}

/// What a new creature of a type starts with.
pub open spec fn initial_balance(types: Rows<Tree>, name: Seq<char>) -> Result<i64, Seq<char>> {
    match registered_type(types, name) {
        Some(spec) => Ok(
            match spec.whole("initialBalance"@) {
                Some(balance) => balance,
                None => 0,
            },
        ),
        None => if name == "human"@ || name == "machine"@ {
            Ok(0)
        } else {
            Err("unknown creature type: "@ + name)
        },
    }
}

/// What a new creature of a type starts with. The node's own types are known before they
/// are registered.
pub fn resolve_initial_balance(types: &Table<Json>, name: &str) -> (r: Result<i64, String>)
    ensures
        match r {
            Ok(balance) => initial_balance(types@, name@) == Ok::<i64, Seq<char>>(balance),
            Err(e) => initial_balance(types@, name@) == Err::<i64, Seq<char>>(e@),
        },
{
    match get_creature_type(types, name) {
        Some(spec) => Ok(
            match spec.whole("initialBalance") {
                Some(balance) => balance,
                None => 0,
            },
        ),
        None => if same(name, "human") || same(name, "machine") {
            Ok(0)
        } else {
            Err(join2("unknown creature type: ", name))
        },
    }
}

/// The specs of the registered types, each with its name.
pub open spec fn listed_types(types: Rows<Tree>) -> Seq<Tree>
    decreases types.len(),
{
    if types.len() == 0 {
        Seq::empty()
    } else {
        let before = listed_types(types.drop_last());
        let (name, spec) = types.last();
        if spec.fields().len() > 0 {
            before.push(spec.with("name"@, Tree::Text(name)))
        } else {
            before
        }
    }
}

/// The specs of the registered types, each with its name.
pub fn creature_types(types: &Table<Json>) -> (r: Vec<Json>)
    ensures
        crate::json::items_of(r@) == listed_types(types@),
{
    let ghost rows = types@;
    let mut out: Vec<Json> = Vec::new();
    let mut i: usize = 0;
    assert(crate::json::items_of(out@) =~= Seq::empty());
    assert(rows.subrange(0, 0) =~= Seq::empty());
    while i < types.len()
        invariant
            i <= types@.len(),
            rows == types@,
            crate::json::items_of(out@) == listed_types(rows.subrange(0, i as int)),
        decreases types@.len() - i,
    {
        let ghost upto = rows.subrange(0, i + 1);
        assert(upto.drop_last() =~= rows.subrange(0, i as int));
        assert(upto.last() == rows[i as int]);
        let spec = types.record_at(i);
        match spec.fields() {
            Some(fields) => {
                if fields.len() > 0 {
                    let one = spec.copy().with("name", Json::Text(types.key_at(i).to_owned()));
                    let ghost before = out@;
                    let ghost added = one@;
                    out.push(one);
                    assert(crate::json::items_of(out@) =~= crate::json::items_of(before).push(
                        added,
                    ));
                }
            },
            None => {},
        }
        i = i + 1;
    }
    assert(rows.subrange(0, rows.len() as int) =~= rows);
    out
}

// ---------------------------------------------------------------- laws

proof fn lemma_type_words()
    ensures
        "human"@ != "machine"@,
{
    reveal_strlit("human");
    reveal_strlit("machine");
    assert("human"@.len() != "machine"@.len());
}

proof fn lemma_builtin(desc: Seq<char>)
    ensures
        builtin_type(desc).fields().len() > 0,
        builtin_type(desc).whole("initialBalance"@) == Some(0i64),
        builtin_type(desc) is Object,
{
    reveal_strlit("initialBalance");
    reveal_strlit("customFields");
    reveal_strlit("desc");
    assert("initialBalance"@.len() == 14);
    assert("customFields"@.len() == 12);
    assert("desc"@.len() == 4);
    lemma_with_nonempty(no_fields(), "initialBalance"@, Tree::Whole(0));
    let a = no_fields().with("initialBalance"@, Tree::Whole(0));
    lemma_with_nonempty(a, "customFields"@, Tree::Array(Seq::empty()));
    let b = a.with("customFields"@, Tree::Array(Seq::empty()));
    lemma_with_nonempty(b, "desc"@, Tree::Text(desc));
}

proof fn lemma_with_nonempty(tree: Tree, key: Seq<char>, value: Tree)
    ensures
        tree.with(key, value).fields().len() > 0,
{
    let after = tree.with(key, value);
    assert(lookup(after.fields(), key) == Some(value));
    if after.fields().len() == 0 {
        assert(lookup(after.fields(), key) is None);
    }
}

/// Registering the node's own types again changes nothing.
pub proof fn law_installing_types_twice_is_installing_them_once(types: Rows<Tree>)
    ensures
        types_installed(types_installed(types)) == types_installed(types),
{
    lemma_type_words();
    let human = builtin_type("The primary human being on the network."@);
    let machine = builtin_type("A non-human being that can own programs."@);
    lemma_builtin("The primary human being on the network."@);
    lemma_builtin("A non-human being that can own programs."@);
    let one = type_added(types, "human"@, human);
    let two = type_added(one, "machine"@, machine);
    assert(registered_type(one, "human"@) is Some);
    assert(registered_type(two, "human"@) == registered_type(one, "human"@));
    assert(registered_type(two, "machine"@) is Some);
    let spec = registered_type(two, "human"@)->0;
    let next = spec.with("initialBalance"@, Tree::Whole(0));
    lemma_with_nonempty(spec, "initialBalance"@, Tree::Whole(0));
    let after = grant_migrated(two);
    assert(registered_type(after, "human"@) is Some);
    assert(registered_type(after, "machine"@) == registered_type(two, "machine"@));
    assert(type_added(after, "human"@, human) == after);
    assert(type_added(after, "machine"@, machine) == after);
    assert(registered_type(after, "human"@)->0.whole("initialBalance"@) != Some(
        legacy_human_balance(),
    ));
}

/// Once the node's own types are registered, no human starts with the grant of earlier
/// nodes.
pub proof fn law_the_legacy_grant_is_gone(types: Rows<Tree>)
    ensures
        initial_balance(types_installed(types), "human"@) != Ok::<i64, Seq<char>>(
            legacy_human_balance(),
        ),
{
    lemma_type_words();
    let human = builtin_type("The primary human being on the network."@);
    let machine = builtin_type("A non-human being that can own programs."@);
    lemma_builtin("The primary human being on the network."@);
    lemma_builtin("A non-human being that can own programs."@);
    let one = type_added(types, "human"@, human);
    let two = type_added(one, "machine"@, machine);
    assert(registered_type(two, "human"@) == registered_type(one, "human"@));
    let spec = registered_type(two, "human"@)->0;
    lemma_with_nonempty(spec, "initialBalance"@, Tree::Whole(0));
}

} // verus!
