//! What binds a mail address to a creature, and who signed what.
use vstd::prelude::*;

use crate::finance::accounts::platform_owner;
use crate::finance::ledger::link_of;
use crate::json::{no_fields, object, Json, Tree};
use crate::outside::{base64_bytes, base64_decode, lowercase_of, to_lowercase};
use crate::table::{
    dropped, law_lookup_after_drop, law_lookup_after_store, lookup, stored, Rows, Table,
};
use crate::text::{contains, holds_text, join2, join3, same, trim, trimmed};

verus! {

broadcast use {vstd::string::group_string_axioms, law_lookup_after_store};

/// The link from a mail address to a creature.
pub open spec fn email_key(email: Seq<char>) -> Seq<char> {
    "UserEmailToId::"@ + email
}

/// The link from a creature to its mail address.
pub open spec fn address_key(user: Seq<char>) -> Seq<char> {
    "UserIdToEmail::"@ + user
}

/// The link from a creature to its private key.
pub open spec fn private_key_key(user: Seq<char>) -> Seq<char> {
    "UserPrivateKey::"@ + user
}

pub(crate) fn link_text(links: &Table<String>, key: &str) -> (r: String)
    ensures
        r@ == link_of(links@, key@),
{
    match links.get(key) {
        Some(text) => text.clone(),
        None => {
            let empty = String::new();
            assert(empty@ =~= Seq::<char>::empty());
            empty
        },
    }
}

/// The mail address that a login is for. A node that asks for grants takes the address in
/// lower case; any other node makes one up from the user name where the token is none.
pub open spec fn login_address(
    token: Seq<char>,
    lower: Seq<char>,
    username: Seq<char>,
    grant_mode: bool,
) -> Seq<char> {
    let address = trimmed(token);
    if grant_mode {
        lower
    } else if address.len() == 0 || !holds_text(address, "@"@) {
        username + "@dev.local"@
    } else {
        address
    }
}

/// The mail address that a login is for, where its lower-case form is known.
pub fn address_for_login(token: &str, lower: &str, username: &str, grant_mode: bool) -> (r: String)
    ensures
        r@ == login_address(token@, lower@, username@, grant_mode),
{
    let address = trim(token);
    if grant_mode {
        lower.to_owned()
    } else if address.is_empty() || !contains(address, "@") {
        join2(username, "@dev.local")
    } else {
        address.to_owned()
    }
}

/// The mail address that a login is for.
pub fn login_email(token: &str, username: &str, grant_mode: bool) -> (r: String)
    ensures
        r@ == login_address(token@, lowercase_of(trimmed(token@)), username@, grant_mode),
{
    let lower = to_lowercase(trim(token));
    address_for_login(token, lower.as_str(), username, grant_mode)
}

/// The user name of a new creature on this node.
pub fn expected_username(username: &str, node: &str) -> (r: String)
    ensures
        r@ == username@ + "@"@ + node@,
{
    join3(username, "@", node)
}

/// The links after an address was bound to a new creature.
pub open spec fn identity_bound(
    links: Rows<Seq<char>>,
    email: Seq<char>,
    user: Seq<char>,
    private_key: Seq<char>,
) -> Rows<Seq<char>> {
    stored(
        stored(
            stored(links, private_key_key(user), private_key),
            email_key(email),
            user,
        ),
        address_key(user),
        email,
    )
}

/// Bind an address to a new creature.
pub fn bind_identity(links: &mut Table<String>, email: &str, user: &str, private_key: &str)
    ensures
        final(links)@ == identity_bound(old(links)@, email@, user@, private_key@),
{
    let secret = join2("UserPrivateKey::", user);
    let to = join2("UserEmailToId::", email);
    let from = join2("UserIdToEmail::", user);
    links.put(secret.as_str(), private_key.to_owned());
    links.put(to.as_str(), user.to_owned());
    links.put(from.as_str(), email.to_owned());
}

/// The links after a creature was deleted.
pub open spec fn identity_forgotten(links: Rows<Seq<char>>, user: Seq<char>) -> Rows<Seq<char>> {
    let email = link_of(links, address_key(user));
    let one = dropped(links, address_key(user));
    let two = if email.len() > 0 {
        dropped(one, email_key(email))
    } else {
        one
    };
    dropped(two, private_key_key(user))
}

/// Forget what binds an address to a creature that was deleted.
pub fn forget_identity(links: &mut Table<String>, user: &str)
    ensures
        final(links)@ == identity_forgotten(old(links)@, user@),
{
    let from = join2("UserIdToEmail::", user);
    let email = link_text(&*links, from.as_str());
    links.remove(from.as_str());
    if !email.as_str().is_empty() {
        let to = join2("UserEmailToId::", email.as_str());
        links.remove(to.as_str());
    }
    let secret = join2("UserPrivateKey::", user);
    links.remove(secret.as_str());
}

// ---------------------------------------------------------------- signatures

/// The bytes whose signature the platform asks about; nothing where they cannot be decoded.
pub open spec fn signed_bytes(
    caller: Seq<char>,
    payload: Result<Seq<u8>, Seq<char>>,
) -> Result<Option<Seq<u8>>, Seq<char>> {
    if caller != platform_owner() {
        Err("access denied"@)
    } else {
        match payload {
            Ok(bytes) => Ok(Some(bytes)),
            Err(_) => Ok(None),
        }
    }
}

/// The bytes whose signature the platform asks about, where they were decoded.
pub fn check_sign_decoded(caller: &str, payload: Result<Vec<u8>, String>) -> (r: Result<
    Option<Vec<u8>>,
    String,
>)
    ensures
        match r {
            Ok(Some(bytes)) => signed_bytes(
                caller@,
                match payload {
                    Ok(b) => Ok(b@),
                    Err(e) => Err(e@),
                },
            ) == Ok::<Option<Seq<u8>>, Seq<char>>(Some(bytes@)),
            Ok(None) => signed_bytes(
                caller@,
                match payload {
                    Ok(b) => Ok(b@),
                    Err(e) => Err(e@),
                },
            ) == Ok::<Option<Seq<u8>>, Seq<char>>(None),
            Err(e) => signed_bytes(
                caller@,
                match payload {
                    Ok(b) => Ok(b@),
                    Err(e) => Err(e@),
                },
            ) == Err::<Option<Seq<u8>>, Seq<char>>(e@),
        },
{
    if !same(caller, "1@global") {
        return Err("access denied".to_owned());
    }
    match payload {
        Ok(bytes) => Ok(Some(bytes)),
        Err(_) => Ok(None),
    }
}

/// The bytes whose signature the platform asks about.
pub fn check_sign(caller: &str, payload: &str) -> (r: Result<Option<Vec<u8>>, String>)
    ensures
        match r {
            Ok(Some(bytes)) => signed_bytes(caller@, base64_bytes(payload@)) == Ok::<
                Option<Seq<u8>>,
                Seq<char>,
            >(Some(bytes@)),
            Ok(None) => signed_bytes(caller@, base64_bytes(payload@)) == Ok::<
                Option<Seq<u8>>,
                Seq<char>,
            >(None),
            Err(e) => signed_bytes(caller@, base64_bytes(payload@)) == Err::<
                Option<Seq<u8>>,
                Seq<char>,
            >(e@),
        },
{
    check_sign_decoded(caller, base64_decode(payload))
}

/// What is answered about a signature: the signer's mail address where it is good.
pub open spec fn sign_answer(links: Rows<Seq<char>>, user: Seq<char>, good: bool) -> Tree {
    if good {
        no_fields().with("valid"@, Tree::Bool(true)).with(
            "email"@,
            Tree::Text(link_of(links, address_key(user))),
        )
    } else {
        no_fields().with("valid"@, Tree::Bool(false))
    }
}

/// The answer about a signature of a user.
pub fn answer_check_sign(links: &Table<String>, user: &str, good: bool) -> (r: Json)
    ensures
        r@ == sign_answer(links@, user@, good),
{
    if good {
        let key = join2("UserIdToEmail::", user);
        let email = link_text(links, key.as_str());
        object().with("valid", Json::Bool(true)).with("email", Json::Text(email))
    } else {
        object().with("valid", Json::Bool(false))
    }
}

// ---------------------------------------------------------------- laws

/// The links of an identity are kept apart.
pub proof fn lemma_identity_keys(a: Seq<char>, b: Seq<char>, c: Seq<char>)
    ensures
        email_key(a) != address_key(b),
        email_key(a) != private_key_key(c),
        address_key(b) != private_key_key(c),
{
    reveal_strlit("UserEmailToId::");
    reveal_strlit("UserIdToEmail::");
    reveal_strlit("UserPrivateKey::");
    assert(email_key(a)[4] == 'E');
    assert(address_key(b)[4] == 'I');
    assert(private_key_key(c)[4] == 'P');
}

/// Nothing is left of the identity of a creature that was deleted: its address leads
/// nowhere, and its key is gone.
pub proof fn law_a_deleted_identity_is_gone(
    links: Rows<Seq<char>>,
    email: Seq<char>,
    user: Seq<char>,
    private_key: Seq<char>,
)
    requires
        email.len() > 0,
    ensures
        ({
            let after = identity_forgotten(
                identity_bound(links, email, user, private_key),
                user,
            );
            &&& lookup(after, email_key(email)) is None
            &&& lookup(after, address_key(user)) is None
            &&& lookup(after, private_key_key(user)) is None
        }),
{
    lemma_identity_keys(email, user, user);
    let bound = identity_bound(links, email, user, private_key);
    let a = address_key(user);
    let b = email_key(email);
    let c = private_key_key(user);
    let one = dropped(bound, a);
    let two = dropped(one, b);
    law_lookup_after_drop(bound, a, a);
    law_lookup_after_drop(one, b, a);
    law_lookup_after_drop(two, c, a);
    law_lookup_after_drop(one, b, b);
    law_lookup_after_drop(two, c, b);
    law_lookup_after_drop(two, c, c);
}

} // verus!
