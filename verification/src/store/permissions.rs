//! What a member may do in a store.
use vstd::prelude::*;

use crate::finance::ledger::link_of;
use crate::table::Table;
use crate::text::{
    contains_text, first_from, join4, join_range, joined, lemma_first_from, listed, occurs_at,
    pieces, split, texts,
};

verus! {

broadcast use vstd::string::group_string_axioms;

/// What a member may do in a store: replay what was signalled, signal, and change the
/// permissions of others.
#[derive(Clone, Copy, PartialEq, Eq, Debug, Structural)]
pub struct StorePermissions {
    pub read: bool,
    pub signal: bool,
    pub manage: bool,
}

impl View for StorePermissions {
    type V = StorePermissions;

    open spec fn view(&self) -> StorePermissions {
        *self
    }
}

/// The permissions of one who has none.
pub open spec fn no_permissions() -> StorePermissions {
    StorePermissions { read: false, signal: false, manage: false }
}

/// The names of the permissions.
pub open spec fn permission_names(p: StorePermissions) -> Seq<Seq<char>> {
    let a = if p.read {
        seq!["read"@]
    } else {
        Seq::empty()
    };
    let b = if p.signal {
        a.push("signal"@)
    } else {
        a
    };
    if p.manage {
        b.push("manage"@)
    } else {
        b
    }
}

/// The permissions as they are recorded.
pub open spec fn encoded_permissions(p: StorePermissions) -> Seq<char> {
    joined(permission_names(p), ","@)
}

/// The permissions that a list of names gives; other names give none.
pub open spec fn named_permissions(list: Seq<Seq<char>>) -> StorePermissions {
    StorePermissions {
        read: listed(list, "read"@),
        signal: listed(list, "signal"@),
        manage: listed(list, "manage"@),
    }
}

/// The permissions that a recorded text gives. A missing record gives none.
pub open spec fn parsed_permissions(text: Seq<char>) -> StorePermissions {
    named_permissions(pieces(text, ","@))
}

impl StorePermissions {
    /// The permissions of the owner of a store.
    pub fn owner() -> (r: Self)
        ensures
            r == (StorePermissions { read: true, signal: true, manage: true }),
    {
        StorePermissions { read: true, signal: true, manage: true }
    }

    /// The permissions of an ordinary member.
    pub fn member() -> (r: Self)
        ensures
            r == (StorePermissions { read: true, signal: true, manage: false }),
    {
        StorePermissions { read: true, signal: true, manage: false }
    }

    /// The permissions that a list of names gives.
    pub fn named(list: &Vec<String>) -> (r: Self)
        ensures
            r == named_permissions(texts(list@)),
    {
        StorePermissions {
            read: contains_text(list, "read"),
            signal: contains_text(list, "signal"),
            manage: contains_text(list, "manage"),
        }
    }

    /// The permissions that a recorded text gives.
    pub fn parse(text: &str) -> (r: Self)
        ensures
            r == parsed_permissions(text@),
    {
        proof {
            reveal_strlit(",");
        }
        let list = split(text, ",");
        StorePermissions::named(&list)
    }

    /// The permissions as they are recorded.
    pub fn encode(&self) -> (r: String)
        ensures
            r@ == encoded_permissions(*self),
    {
        let mut out: Vec<String> = Vec::new();
        if self.read {
            out.push("read".to_owned());
        }
        if self.signal {
            out.push("signal".to_owned());
        }
        if self.manage {
            out.push("manage".to_owned());
        }
        let n: usize = out.len();
        assert(texts(out@) =~= permission_names(*self));
        assert(texts(out@).subrange(0, n as int) =~= texts(out@));
        join_range(&out, 0, n, ",")
    }
}

/// The key of a member's permissions in a store.
pub open spec fn access_key(store: Seq<char>, member: Seq<char>) -> Seq<char> {
    "onaccess::"@ + store + "::"@ + member
}

/// The key of a member's permissions in a store.
pub fn access_link_key(store_id: &str, member_id: &str) -> (r: String)
    ensures
        r@ == access_key(store_id@, member_id@),
{
    join4("onaccess::", store_id, "::", member_id)
}

/// The permissions of a member in a store.
pub fn read_permissions(links: &Table<String>, store_id: &str, member_id: &str) -> (r:
    StorePermissions)
    ensures
        r == parsed_permissions(link_of(links@, access_key(store_id@, member_id@))),
{
    let key = access_link_key(store_id, member_id);
    match links.get(key.as_str()) {
        Some(text) => StorePermissions::parse(text.as_str()),
        None => {
            let empty = "";
            proof {
                reveal_strlit("");
                assert(empty@ =~= Seq::<char>::empty());
            }
            StorePermissions::parse(empty)
        },
    }
}

// ---------------------------------------------------------------- laws

proof fn lemma_no_piece(name: Seq<char>)
    requires
        !name.contains(','),
    ensures
        pieces(name, ","@) == seq![name],
{
    reveal_strlit(",");
    lemma_first_from(name, ","@, 0);
    match first_from(name, ","@, 0) {
        Some(i) => {
            assert(name.subrange(i, i + 1)[0] == name[i]);
            assert(name.contains(','));
        },
        None => {},
    }
}

proof fn lemma_first_piece(name: Seq<char>, rest: Seq<char>)
    requires
        !name.contains(','),
    ensures
        pieces(name + ","@ + rest, ","@) == seq![name] + pieces(rest, ","@),
{
    reveal_strlit(",");
    let sep = ","@;
    let whole = name + sep + rest;
    let at = name.len() as int;
    lemma_first_from(whole, sep, 0);
    assert(whole.subrange(at, at + 1) =~= sep);
    assert(occurs_at(whole, sep, at));
    match first_from(whole, sep, 0) {
        None => {},
        Some(i) => {
            if i < at {
                assert(whole.subrange(i, i + 1)[0] == whole[i]);
                assert(whole[i] == name[i]);
                assert(name.contains(','));
            }
            assert(whole.subrange(0, at) =~= name);
            assert(whole.subrange(at + 1, whole.len() as int) =~= rest);
        },
    }
}

/// Permissions that are recorded read back as they were.
pub proof fn law_recorded_permissions_read_back(p: StorePermissions)
    ensures
        parsed_permissions(encoded_permissions(p)) == p,
{
    reveal_strlit("read");
    reveal_strlit("signal");
    reveal_strlit("manage");
    let r = "read"@;
    let s = "signal"@;
    let m = "manage"@;
    let c = ","@;
    assert(r[0] == 'r' && s[0] == 's' && m[0] == 'm');
    assert(r.len() == 4 && s.len() == 6 && m.len() == 6);
    assert(!r.contains(','));
    assert(!s.contains(','));
    assert(!m.contains(','));
    lemma_no_piece(r);
    lemma_no_piece(s);
    lemma_no_piece(m);
    lemma_no_piece(Seq::<char>::empty());
    lemma_first_piece(r, s);
    lemma_first_piece(r, m);
    lemma_first_piece(s, m);
    lemma_first_piece(r, s + c + m);
    assert(r + c + s + c + m =~= r + c + (s + c + m));
    let names = permission_names(p);
    let text = encoded_permissions(p);
    reveal_with_fuel(joined, 4);
    if p.read && p.signal && p.manage {
        assert(names =~= seq![r, s, m]);
        assert(names.drop_last() =~= seq![r, s]);
        assert(seq![r, s].drop_last() =~= seq![r]);
        assert(text == r + c + s + c + m);
        let list = pieces(text, c);
        assert(list =~= seq![r, s, m]);
        assert(list[0] == r && list[1] == s && list[2] == m);
    } else if p.read && p.signal {
        assert(names =~= seq![r, s]);
        assert(names.drop_last() =~= seq![r]);
        let list = pieces(text, c);
        assert(list =~= seq![r, s]);
        assert(list[0] == r && list[1] == s);
    } else if p.read && p.manage {
        assert(names =~= seq![r, m]);
        assert(names.drop_last() =~= seq![r]);
        let list = pieces(text, c);
        assert(list =~= seq![r, m]);
        assert(list[0] == r && list[1] == m);
    } else if p.signal && p.manage {
        assert(names =~= seq![s, m]);
        assert(names.drop_last() =~= seq![s]);
        let list = pieces(text, c);
        assert(list =~= seq![s, m]);
        assert(list[0] == s && list[1] == m);
    } else if p.read {
        assert(names =~= seq![r]);
        assert(pieces(text, c)[0] == r);
    } else if p.signal {
        assert(names =~= seq![s]);
        assert(pieces(text, c)[0] == s);
    } else if p.manage {
        assert(names =~= seq![m]);
        assert(pieces(text, c)[0] == m);
    } else {
        assert(names =~= Seq::empty());
        assert(pieces(text, c)[0] == Seq::<char>::empty());
    }
}

/// A grant that is not recorded permits nothing.
pub proof fn law_a_missing_grant_permits_nothing()
    ensures
        parsed_permissions(Seq::empty()) == no_permissions(),
{
    reveal_strlit("read");
    reveal_strlit("signal");
    reveal_strlit("manage");
    assert(!Seq::<char>::empty().contains(','));
    lemma_no_piece(Seq::<char>::empty());
}

} // verus!
