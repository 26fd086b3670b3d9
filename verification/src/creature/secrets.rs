//! Secrets that creatures keep on the node, and the grants by which others read them.
//!
//! The node keeps ciphertext only. Who may have it decrypted is decided here, for the caller
//! that the node authenticated.
use vstd::prelude::*;
use vstd::utf8::{
    decode_utf8, encode_utf8, encode_utf8_decode_utf8, encode_utf8_valid_utf8, valid_utf8,
};

use crate::decimal::{
    decimal, law_written_numbers_read_back, parse_i64, read_i64, write_i64,
};
use crate::finance::ledger::link_of;
use crate::outside::read_utf8;
use crate::store::membership::names_behind;
use crate::table::{dropped, law_lookup_after_drop, law_lookup_after_store, stored, Rows, Table};
use crate::text::{
    contains, cut, has_prefix, holds_text, join3, join4, same, split_once, strip_prefix, texts,
    trim, trimmed,
};

verus! {

broadcast use {vstd::string::group_string_axioms, law_lookup_after_store};

/// The key of a secret.
pub open spec fn secret_key(owner: Seq<char>, name: Seq<char>) -> Seq<char> {
    "Secret::"@ + owner + "::"@ + name
}

/// The key of a grant, by the owner.
pub open spec fn secret_grant_key(
    owner: Seq<char>,
    name: Seq<char>,
    grantee: Seq<char>,
) -> Seq<char> {
    "SecretGrant::"@ + owner + "::"@ + name + "::"@ + grantee
}

/// The key of a grant, by the grantee.
pub open spec fn secret_grantee_key(
    grantee: Seq<char>,
    owner: Seq<char>,
    name: Seq<char>,
) -> Seq<char> {
    "SecretGrantee::"@ + grantee + "::"@ + owner + "::"@ + name
}

fn key_of_secret(owner: &str, name: &str) -> (r: String)
    ensures
        r@ == secret_key(owner@, name@),
{
    join4("Secret::", owner, "::", name)
}

fn key_of_grant(owner: &str, name: &str, grantee: &str) -> (r: String)
    ensures
        r@ == secret_grant_key(owner@, name@, grantee@),
{
    let head = join4("SecretGrant::", owner, "::", name);
    join3(head.as_str(), "::", grantee)
}

fn key_of_grantee(grantee: &str, owner: &str, name: &str) -> (r: String)
    ensures
        r@ == secret_grantee_key(grantee@, owner@, name@),
{
    let head = join4("SecretGrantee::", grantee, "::", owner);
    join3(head.as_str(), "::", name)
}

/// Whether a text can be one part of a key: it is not empty and holds no colon, which would
/// let it reach into the keys of others.
pub open spec fn is_component(s: Seq<char>) -> bool {
    s.len() > 0 && !holds_text(s, ":"@)
}

/// Whether a text can be one part of a key.
pub fn valid_component(s: &str) -> (r: bool)
    ensures
        r == is_component(s@),
{
    !s.is_empty() && !contains(s, ":")
}

/// The time at which a grant ends; zero where none is recorded.
pub open spec fn grant_end(text: Seq<char>) -> i64 {
    match read_i64(trimmed(text)) {
        Some(end) => end,
        None => 0,
    }
}

/// Whether a grant that is recorded so is still good.
pub open spec fn is_granted(text: Seq<char>, now: int) -> bool {
    grant_end(text) > 0 && now < grant_end(text)
}

fn end_of_grant(text: &str) -> (r: i64)
    ensures
        r == grant_end(text@),
{
    match parse_i64(trim(text)) {
        Some(end) => end,
        None => 0,
    }
}

fn link_text(links: &Table<String>, key: &str) -> (r: String)
    ensures
        r@ == link_of(links@, key@),
{
    match links.get(key) {
        Some(text) => text.clone(),
        None => {
            let empty = String::new();
            assert(empty@ =~= Seq::<char>::empty());
            empty
        },
    }
}

// ---------------------------------------------------------------- putting and reading

/// Why a secret cannot be put.
pub open spec fn put_refusal(owner: Seq<char>, name: Seq<char>, value: Seq<char>) -> Option<
    Seq<char>,
> {
    if owner.len() == 0 {
        Some("not authenticated"@)
    } else if !is_component(name) {
        Some("secret name is required and must not contain ':'"@)
    } else if value.len() == 0 {
        Some("secret value is required"@)
    } else {
        None
    }
}

/// Whether a secret can be put.
pub fn refuse_secret_put(owner: &str, name: &str, value: &str) -> (r: Option<String>)
    ensures
        match r {
            Some(e) => put_refusal(owner@, name@, value@) == Some(e@),
            None => put_refusal(owner@, name@, value@) is None,
        },
{
    if owner.is_empty() {
        return Some("not authenticated".to_owned());
    }
    if !valid_component(name) {
        return Some("secret name is required and must not contain ':'".to_owned());
    }
    if value.is_empty() {
        return Some("secret value is required".to_owned());
    }
    None
}

/// Keep a secret; `blob` is its value, encrypted.
pub fn secret_put(
    links: &mut Table<String>,
    owner: &str,
    name: &str,
    value: &str,
    blob: &str,
) -> (r: Result<(), String>)
    ensures
        match r {
            Ok(_) => put_refusal(owner@, name@, value@) is None && final(links)@ == stored(
                old(links)@,
                secret_key(owner@, name@),
                blob@,
            ),
            Err(e) => final(links)@ == old(links)@ && put_refusal(owner@, name@, value@) == Some(
                e@,
            ),
        },
{
    match refuse_secret_put(owner, name, value) {
        Some(e) => {
            return Err(e);
        },
        None => {},
    }
    let key = key_of_secret(owner, name);
    links.put(key.as_str(), blob.to_owned());
    Ok(())
}

/// Whose secret a request is about: its owner, or the caller.
pub open spec fn secret_owner(caller: Seq<char>, owner: Seq<char>) -> Seq<char> {
    if owner.len() == 0 {
        caller
    } else {
        owner
    }
}

/// The encrypted value that a caller may have decrypted, and its owner.
pub open spec fn secret_read(
    links: Rows<Seq<char>>,
    caller: Seq<char>,
    named_owner: Seq<char>,
    name: Seq<char>,
    now: int,
) -> Result<(Seq<char>, Seq<char>), Seq<char>> {
    let owner = secret_owner(caller, named_owner);
    let blob = link_of(links, secret_key(owner, name));
    if caller.len() == 0 {
        Err("not authenticated"@)
    } else if !is_component(name) {
        Err("secret name is required"@)
    } else if owner != caller && !is_granted(
        link_of(links, secret_grant_key(owner, name, caller)),
        now,
    ) {
        Err("access denied: no valid grant for this secret"@)
    } else if blob.len() == 0 {
        Err("secret not found"@)
    } else {
        Ok((owner, blob))
    }
}

/// The encrypted value of a secret, for its owner or for one who holds a grant that has not
/// ended, and the owner.
pub fn secret_get(
    links: &Table<String>,
    caller: &str,
    named_owner: &str,
    name: &str,
    now: i64,
) -> (r: Result<(String, String), String>)
    ensures
        match r {
            Ok((owner, blob)) => secret_read(links@, caller@, named_owner@, name@, now as int)
                == Ok::<(Seq<char>, Seq<char>), Seq<char>>((owner@, blob@)),
            Err(e) => secret_read(links@, caller@, named_owner@, name@, now as int) == Err::<
                (Seq<char>, Seq<char>),
                Seq<char>,
            >(e@),
        },
{
    if caller.is_empty() {
        return Err("not authenticated".to_owned());
    }
    if !valid_component(name) {
        return Err("secret name is required".to_owned());
    }
    let owner: &str = if named_owner.is_empty() {
        caller
    } else {
        named_owner
    };
    if !same(owner, caller) {
        let key = key_of_grant(owner, name, caller);
        let text = link_text(links, key.as_str());
        let end: i64 = end_of_grant(text.as_str());
        if end <= 0 || now >= end {
            return Err("access denied: no valid grant for this secret".to_owned());
        }
    }
    let key = key_of_secret(owner, name);
    let blob = link_text(links, key.as_str());
    if blob.as_str().is_empty() {
        return Err("secret not found".to_owned());
    }
    Ok((owner.to_owned(), blob))
}

/// The text of a secret, where its decrypted bytes are one.
pub open spec fn secret_text(plaintext: Seq<u8>) -> Result<Seq<char>, Seq<char>> {
    if valid_utf8(plaintext) {
        Ok(decode_utf8(plaintext))
    } else {
        Err("stored secret is not valid UTF-8"@)
    }
}

/// The text of a secret that was decrypted.
pub fn secret_value(plaintext: Vec<u8>) -> (r: Result<String, String>)
    ensures
        match r {
            Ok(value) => secret_text(plaintext@) == Ok::<Seq<char>, Seq<char>>(value@),
            Err(e) => secret_text(plaintext@) == Err::<Seq<char>, Seq<char>>(e@),
        },
{
    match read_utf8(plaintext) {
        Some(value) => Ok(value),
        None => Err("stored secret is not valid UTF-8".to_owned()),
    }
}

/// A text that was encrypted is read back as it was.
pub proof fn law_a_secret_is_read_as_it_was_put(value: Seq<char>)
    ensures
        secret_text(encode_utf8(value)) == Ok::<Seq<char>, Seq<char>>(value),
{
    encode_utf8_valid_utf8(value);
    encode_utf8_decode_utf8(value);
}

// ---------------------------------------------------------------- granting

/// A request to let another creature read a secret for a while.
pub struct SecretGrantInput {
    pub name: String,
    pub grantee: String,
    pub ttl_seconds: i64,
}

/// The links after a grant, and the time at which it ends.
pub open spec fn secret_granted(
    links: Rows<Seq<char>>,
    owner: Seq<char>,
    input: SecretGrantInput,
    now: int,
) -> Result<(Rows<Seq<char>>, int), Seq<char>> {
    let end = now + input.ttl_seconds * 1000;
    if owner.len() == 0 {
        Err("not authenticated"@)
    } else if !is_component(input.name@) || !is_component(input.grantee@) {
        Err("name and grantee are required and must not contain ':'"@)
    } else if input.ttl_seconds <= 0 {
        Err("ttlSeconds must be positive"@)
    } else if link_of(links, secret_key(owner, input.name@)).len() == 0 {
        Err("secret not found"@)
    } else {
        Ok(
            (
                stored(
                    stored(
                        links,
                        secret_grant_key(owner, input.name@, input.grantee@),
                        decimal(end),
                    ),
                    secret_grantee_key(input.grantee@, owner, input.name@),
                    decimal(end),
                ),
                end,
            ),
        )
    }
}

/// Let another creature read a secret for a while. Only the owner of a secret that exists
/// can.
pub fn secret_grant(
    links: &mut Table<String>,
    owner: &str,
    input: &SecretGrantInput,
    now: i64,
) -> (r: Result<i64, String>)
    requires
        input.ttl_seconds > 0 ==> now + input.ttl_seconds * 1000 <= i64::MAX,
    ensures
        match r {
            Ok(end) => secret_granted(old(links)@, owner@, *input, now as int) == Ok::<
                (Rows<Seq<char>>, int),
                Seq<char>,
            >((final(links)@, end as int)),
            Err(e) => final(links)@ == old(links)@ && secret_granted(
                old(links)@,
                owner@,
                *input,
                now as int,
            ) == Err::<(Rows<Seq<char>>, int), Seq<char>>(e@),
        },
{
    let name = input.name.as_str();
    let grantee = input.grantee.as_str();
    if owner.is_empty() {
        return Err("not authenticated".to_owned());
    }
    if !valid_component(name) || !valid_component(grantee) {
        return Err("name and grantee are required and must not contain ':'".to_owned());
    }
    if input.ttl_seconds <= 0 {
        return Err("ttlSeconds must be positive".to_owned());
    }
    let key = key_of_secret(owner, name);
    if link_text(&*links, key.as_str()).as_str().is_empty() {
        return Err("secret not found".to_owned());
    }
    let end: i64 = (now as i128 + input.ttl_seconds as i128 * 1000) as i64;
    let grant = key_of_grant(owner, name, grantee);
    let back = key_of_grantee(grantee, owner, name);
    links.put(grant.as_str(), write_i64(end));
    links.put(back.as_str(), write_i64(end));
    Ok(end)
}

/// The links after a grant was taken back.
pub open spec fn secret_revoked(
    links: Rows<Seq<char>>,
    owner: Seq<char>,
    name: Seq<char>,
    grantee: Seq<char>,
) -> Result<Rows<Seq<char>>, Seq<char>> {
    if owner.len() == 0 {
        Err("not authenticated"@)
    } else if !is_component(name) || !is_component(grantee) {
        Err("name and grantee are required"@)
    } else {
        Ok(
            dropped(
                dropped(links, secret_grant_key(owner, name, grantee)),
                secret_grantee_key(grantee, owner, name),
            ),
        )
    }
}

/// Take a grant back.
pub fn secret_revoke(links: &mut Table<String>, owner: &str, name: &str, grantee: &str) -> (r:
    Result<(), String>)
    ensures
        match r {
            Ok(_) => secret_revoked(old(links)@, owner@, name@, grantee@) == Ok::<
                Rows<Seq<char>>,
                Seq<char>,
            >(final(links)@),
            Err(e) => final(links)@ == old(links)@ && secret_revoked(
                old(links)@,
                owner@,
                name@,
                grantee@,
            ) == Err::<Rows<Seq<char>>, Seq<char>>(e@),
        },
{
    if owner.is_empty() {
        return Err("not authenticated".to_owned());
    }
    if !valid_component(name) || !valid_component(grantee) {
        return Err("name and grantee are required".to_owned());
    }
    let grant = key_of_grant(owner, name, grantee);
    let back = key_of_grantee(grantee, owner, name);
    links.remove(grant.as_str());
    links.remove(back.as_str());
    Ok(())
}

// ---------------------------------------------------------------- listing

/// A grant that a creature holds.
pub struct GrantedSecret {
    pub owner: String,
    pub name: String,
    pub expires_at: i64,
}

/// A grant that a creature holds, as texts.
pub struct Granted {
    pub owner: Seq<char>,
    pub name: Seq<char>,
    pub expires_at: i64,
}

impl View for GrantedSecret {
    type V = Granted;

    open spec fn view(&self) -> Granted {
        Granted { owner: self.owner@, name: self.name@, expires_at: self.expires_at }
    }
}

/// The grants of a list.
pub open spec fn grants_of(list: Seq<GrantedSecret>) -> Seq<Granted> {
    list.map_values(|g: GrantedSecret| g@)
}

/// The grant that a link records for a grantee, where it has not ended.
pub open spec fn recorded_grant(
    key: Seq<char>,
    text: Seq<char>,
    prefix: Seq<char>,
    now: int,
) -> Option<Granted> {
    if !has_prefix(key, prefix) {
        None
    } else {
        match cut(key.subrange(prefix.len() as int, key.len() as int), "::"@) {
            None => None,
            Some((owner, name)) => if is_granted(text, now) {
                Some(Granted { owner, name, expires_at: grant_end(text) })
            } else {
                None
            },
        }
    }
}

/// The grants that have not ended among the links of a prefix.
pub open spec fn current_grants(links: Rows<Seq<char>>, prefix: Seq<char>, now: int) -> Seq<
    Granted,
>
    decreases links.len(),
{
    if links.len() == 0 {
        Seq::empty()
    } else {
        let before = current_grants(links.drop_last(), prefix, now);
        match recorded_grant(links.last().0, links.last().1, prefix, now) {
            Some(grant) => before.push(grant),
            None => before,
        }
    }
}

/// The grants that a creature holds and that have not ended.
pub fn list_granted_secrets(links: &Table<String>, grantee: &str, now: i64) -> (r: Vec<
    GrantedSecret,
>)
    ensures
        grants_of(r@) == current_grants(
            links@,
            "SecretGrantee::"@ + grantee@ + "::"@,
            now as int,
        ),
{
    let prefix = join3("SecretGrantee::", grantee, "::");
    let ghost rows = links@;
    let mut out: Vec<GrantedSecret> = Vec::new();
    let mut i: usize = 0;
    assert(grants_of(out@) =~= Seq::empty());
    assert(rows.subrange(0, 0) =~= Seq::empty());
    while i < links.len()
        invariant
            i <= links@.len(),
            rows == links@,
            grants_of(out@) == current_grants(rows.subrange(0, i as int), prefix@, now as int),
        decreases links@.len() - i,
    {
        let ghost upto = rows.subrange(0, i + 1);
        assert(upto.drop_last() =~= rows.subrange(0, i as int));
        assert(upto.last() == rows[i as int]);
        match strip_prefix(links.key_at(i), prefix.as_str()) {
            Some(rest) => match split_once(rest, "::") {
                Some((owner, name)) => {
                    let end: i64 = end_of_grant(links.record_at(i).as_str());
                    if end > 0 && now < end {
                        let one = GrantedSecret {
                            owner: owner.to_owned(),
                            name: name.to_owned(),
                            expires_at: end,
                        };
                        let ghost before = out@;
                        let ghost added = one@;
                        out.push(one);
                        assert(grants_of(out@) =~= grants_of(before).push(added));
                    }
                },
                None => {},
            },
            None => {},
        }
        i = i + 1;
    }
    assert(rows.subrange(0, rows.len() as int) =~= rows);
    out
}

/// The names of the secrets that a creature keeps.
pub fn secret_list(links: &Table<String>, owner: &str) -> (r: Result<Vec<String>, String>)
    ensures
        match r {
            Ok(names) => owner@.len() > 0 && texts(names@) == names_behind(
                links@,
                "Secret::"@ + owner@ + "::"@,
            ),
            Err(e) => owner@.len() == 0 && e@ == "not authenticated"@,
        },
{
    if owner.is_empty() {
        return Err("not authenticated".to_owned());
    }
    let prefix = join3("Secret::", owner, "::");
    Ok(crate::store::membership::collect_names(links, prefix.as_str()))
}

// ---------------------------------------------------------------- laws

proof fn lemma_secret_keys_apart(
    owner: Seq<char>,
    name: Seq<char>,
    a: Seq<char>,
    b: Seq<char>,
    c: Seq<char>,
)
    ensures
        secret_key(owner, name) != secret_grant_key(a, b, c),
        secret_key(owner, name) != secret_grantee_key(a, b, c),
        secret_grant_key(owner, name, a) != secret_grantee_key(a, b, c),
{
    reveal_strlit("Secret::");
    reveal_strlit("SecretGrant::");
    reveal_strlit("SecretGrantee::");
    assert(secret_key(owner, name)[6] == ':');
    assert(secret_grant_key(a, b, c)[6] == 'G');
    assert(secret_grantee_key(a, b, c)[6] == 'G');
    assert(secret_grant_key(owner, name, a)[11] == ':');
    assert(secret_grantee_key(a, b, c)[11] == 'e');
}

proof fn lemma_written_end(end: i64)
    ensures
        grant_end(decimal(end as int)) == end,
{
    law_written_numbers_read_back(end);
    crate::decimal::lemma_written_numbers_are_trimmed(end);
}

/// A grant lets the grantee read exactly what the owner put, until it ends and no longer.
pub proof fn law_a_grant_opens_a_secret_until_it_ends(
    links: Rows<Seq<char>>,
    owner: Seq<char>,
    input: SecretGrantInput,
    now: int,
    after: Rows<Seq<char>>,
    end: int,
    later: int,
)
    requires
        secret_granted(links, owner, input, now) == Ok::<(Rows<Seq<char>>, int), Seq<char>>(
            (after, end),
        ),
        0 < end <= i64::MAX,
        input.grantee@ != owner,
    ensures
        later < end ==> secret_read(after, input.grantee@, owner, input.name@, later) == Ok::<
            (Seq<char>, Seq<char>),
            Seq<char>,
        >((owner, link_of(links, secret_key(owner, input.name@)))),
        later >= end ==> secret_read(after, input.grantee@, owner, input.name@, later) is Err,
{
    lemma_written_end(end as i64);
    let name = input.name@;
    let grantee = input.grantee@;
    lemma_secret_keys_apart(owner, name, owner, name, grantee);
    lemma_secret_keys_apart(owner, name, grantee, owner, name);
    assert(secret_grant_key(owner, name, grantee) != secret_grantee_key(grantee, owner, name));
}

/// A grant that was taken back opens nothing, at any time.
pub proof fn law_a_revoked_grant_opens_nothing(
    links: Rows<Seq<char>>,
    owner: Seq<char>,
    name: Seq<char>,
    grantee: Seq<char>,
    after: Rows<Seq<char>>,
    now: int,
)
    requires
        secret_revoked(links, owner, name, grantee) == Ok::<Rows<Seq<char>>, Seq<char>>(after),
        grantee != owner,
    ensures
        secret_read(after, grantee, owner, name, now) == Err::<(Seq<char>, Seq<char>), Seq<char>>(
            "access denied: no valid grant for this secret"@,
        ),
{
    let grant = secret_grant_key(owner, name, grantee);
    let back = secret_grantee_key(grantee, owner, name);
    law_lookup_after_drop(links, grant, grant);
    law_lookup_after_drop(dropped(links, grant), back, grant);
    crate::decimal::lemma_nothing_is_no_number();
}

/// An owner reads back what they put, whatever grants there are.
pub proof fn law_owners_read_back(
    links: Rows<Seq<char>>,
    owner: Seq<char>,
    name: Seq<char>,
    value: Seq<char>,
    blob: Seq<char>,
    now: int,
)
    requires
        put_refusal(owner, name, value) is None,
        blob.len() > 0,
    ensures
        secret_read(
            stored(links, secret_key(owner, name), blob),
            owner,
            Seq::empty(),
            name,
            now,
        ) == Ok::<(Seq<char>, Seq<char>), Seq<char>>((owner, blob)),
{
}

} // verus!
