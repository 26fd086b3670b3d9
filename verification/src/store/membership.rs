//! The stores of the node, their creators, and their members.
use vstd::prelude::*;

use crate::finance::ledger::link_of;
use crate::json::{merged, object_in, object_of, Json, Tree};
use crate::order::{ascending, law_sorting_orders_and_keeps, sort_texts};
use crate::outside::{json_read, parsed_json};
use crate::store::permissions::{
    access_key, access_link_key, encoded_permissions, law_recorded_permissions_read_back,
    parsed_permissions, read_permissions, StorePermissions,
};
use crate::table::{
    dropped, law_lookup_after_drop, law_lookup_after_store, lookup, row_from, stored, Rows, Table,
};
use crate::text::{has_prefix, has_suffix, join2, join4, same, strip_prefix, strip_suffix, texts};

verus! {

broadcast use {vstd::string::group_string_axioms, law_lookup_after_store};

/// A store: whether it keeps what is signalled in it, how often that was, and how it
/// presents itself.
pub struct StoreRecord {
    pub id: String,
    pub persistent_history: bool,
    pub signal_count: i64,
    pub tag: String,
    pub parent_id: String,
    pub is_public: bool,
    pub member_count: i64,
}

/// A store, as texts and numbers.
pub struct StoreState {
    pub id: Seq<char>,
    pub persistent_history: bool,
    pub signal_count: int,
    pub tag: Seq<char>,
    pub parent_id: Seq<char>,
    pub is_public: bool,
    pub member_count: int,
}

impl View for StoreRecord {
    type V = StoreState;

    open spec fn view(&self) -> StoreState {
        StoreState {
            id: self.id@,
            persistent_history: self.persistent_history,
            signal_count: self.signal_count as int,
            tag: self.tag@,
            parent_id: self.parent_id@,
            is_public: self.is_public,
            member_count: self.member_count as int,
        }
    }
}

/// A store of which nothing but its identifier is known.
pub open spec fn empty_store(id: Seq<char>) -> StoreState {
    StoreState {
        id,
        persistent_history: false,
        signal_count: 0,
        tag: Seq::empty(),
        parent_id: Seq::empty(),
        is_public: false,
        member_count: 0,
    }
}

impl StoreRecord {
    /// A copy of the record.
    pub fn copy(&self) -> (r: StoreRecord)
        ensures
            r@ == self@,
    {
        StoreRecord {
            id: self.id.clone(),
            persistent_history: self.persistent_history,
            signal_count: self.signal_count,
            tag: self.tag.clone(),
            parent_id: self.parent_id.clone(),
            is_public: self.is_public,
            member_count: self.member_count,
        }
    }

    /// A store of which nothing but its identifier is known.
    pub fn empty(id: &str) -> (r: StoreRecord)
        ensures
            r@ == empty_store(id@),
    {
        let tag = String::new();
        let parent_id = String::new();
        assert(tag@ =~= Seq::<char>::empty());
        assert(parent_id@ =~= Seq::<char>::empty());
        StoreRecord {
            id: id.to_owned(),
            persistent_history: false,
            signal_count: 0,
            tag,
            parent_id,
            is_public: false,
            member_count: 0,
        }
    }
}

/// How many members of a store are shown: as many as 32 bits hold.
pub fn shown_member_count(count: i64) -> (r: i32)
    ensures
        r == if i32::MIN <= count <= i32::MAX {
            count as int
        } else {
            i32::MAX as int
        },
{
    if count >= -2147483648 && count <= 2147483647 {
        count as i32
    } else {
        i32::MAX
    }
}

/// The stores of the node with their metadata, and the links that say who created them and
/// who belongs to them.
pub struct Stores {
    pub records: Table<StoreRecord>,
    pub metadata: Table<Json>,
    pub links: Table<String>,
}

/// The stores of the node, as texts.
pub struct StoresState {
    pub records: Rows<StoreState>,
    pub metadata: Rows<Tree>,
    pub links: Rows<Seq<char>>,
}

impl View for Stores {
    type V = StoresState;

    open spec fn view(&self) -> StoresState {
        StoresState {
            records: self.records@,
            metadata: self.metadata@,
            links: self.links@,
        }
    }
}

/// Why a change of a store is refused.
#[derive(PartialEq, Eq, Structural, Clone, Copy, Debug)]
pub enum StoreFault {
    Conflict,
    NotFound,
}

/// The key of the link from a creator to a store.
pub open spec fn creator_key(creator: Seq<char>, store: Seq<char>) -> Seq<char> {
    "creatorof::"@ + creator + "::"@ + store
}

/// The key of the link from a member to a store.
pub open spec fn member_key(member: Seq<char>, store: Seq<char>) -> Seq<char> {
    "hasaccess::"@ + member + "::"@ + store
}

// ---------------------------------------------------------------- records

/// The stores with a new one.
pub open spec fn store_created(
    state: StoresState,
    record: StoreState,
    creator: Seq<char>,
) -> Result<StoresState, StoreFault> {
    if lookup(state.records, record.id) is Some {
        Err(StoreFault::Conflict)
    } else {
        Ok(
            StoresState {
                records: stored(state.records, record.id, record),
                links: stored(state.links, creator_key(creator, record.id), "true"@),
                ..state
            },
        )
    }
}

/// The stores with a change of one.
pub open spec fn store_updated(state: StoresState, record: StoreState) -> Result<
    StoresState,
    StoreFault,
> {
    if lookup(state.records, record.id) is None {
        Err(StoreFault::NotFound)
    } else {
        Ok(StoresState { records: stored(state.records, record.id, record), ..state })
    }
}

/// Whether a key links some creator to a store.
pub open spec fn links_creator(key: Seq<char>, store: Seq<char>) -> bool {
    has_prefix(key, "creatorof::"@) && has_suffix(
        key.subrange("creatorof::"@.len() as int, key.len() as int),
        "::"@ + store,
    )
}

/// The keys that link creators to a store.
pub open spec fn creator_keys(links: Rows<Seq<char>>, store: Seq<char>) -> Seq<Seq<char>>
    decreases links.len(),
{
    if links.len() == 0 {
        Seq::empty()
    } else {
        let before = creator_keys(links.drop_last(), store);
        if links_creator(links.last().0, store) {
            before.push(links.last().0)
        } else {
            before
        }
    }
}

/// The rows without those of the given keys.
pub open spec fn without_keys<T>(rows: Rows<T>, keys: Seq<Seq<char>>) -> Rows<T>
    decreases keys.len(),
{
    if keys.len() == 0 {
        rows
    } else {
        dropped(without_keys(rows, keys.drop_last()), keys.last())
    }
}

/// The stores with a document laid over the metadata of one.
pub open spec fn metadata_merged(
    state: StoresState,
    store: Seq<char>,
    document: Tree,
) -> StoresState {
    StoresState {
        metadata: stored(
            state.metadata,
            store_metadata_key(store),
            match lookup(state.metadata, store_metadata_key(store)) {
                Some(earlier) => merged(earlier, document),
                None => document,
            },
        ),
        ..state
    }
}

/// The key of the metadata of a store.
pub open spec fn store_metadata_key(store: Seq<char>) -> Seq<char> {
    "StoreMeta::"@ + store
}

/// The stores without one of them. Its creators' links and its metadata go with it.
pub open spec fn store_deleted(state: StoresState, store: Seq<char>) -> StoresState {
    StoresState {
        records: dropped(state.records, store),
        links: without_keys(state.links, creator_keys(state.links, store)),
        metadata: dropped(state.metadata, store_metadata_key(store)),
    }
}

/// A store, or what is known of one that does not exist.
pub open spec fn store_or_empty(state: StoresState, id: Seq<char>) -> StoreState {
    match lookup(state.records, id) {
        Some(record) => record,
        None => empty_store(id),
    }
}

/// The stores after one more signal in one of them.
pub open spec fn signal_recorded(state: StoresState, store: Seq<char>) -> StoresState {
    let record = store_or_empty(state, store);
    StoresState {
        records: stored(
            state.records,
            store,
            StoreState { signal_count: record.signal_count + 1, ..record },
        ),
        ..state
    }
}

impl Stores {
    /// A store.
    pub fn store(&self, id: &str) -> (r: Option<StoreRecord>)
        ensures
            match r {
                Some(record) => lookup(self@.records, id@) == Some(record@),
                None => lookup(self@.records, id@) is None,
            },
    {
        match self.records.get(id) {
            Some(record) => Some(record.copy()),
            None => None,
        }
    }

    /// A store, or what is known of one that does not exist.
    pub fn store_or_empty(&self, id: &str) -> (r: StoreRecord)
        ensures
            r@ == store_or_empty(self@, id@),
    {
        match self.records.get(id) {
            Some(record) => record.copy(),
            None => StoreRecord::empty(id),
        }
    }

    /// Add a store of a creator.
    pub fn create_store(&mut self, record: &StoreRecord, creator: &str) -> (r: Result<
        (),
        StoreFault,
    >)
        ensures
            match r {
                Ok(_) => store_created(old(self)@, record@, creator@) == Ok::<
                    StoresState,
                    StoreFault,
                >(final(self)@),
                Err(e) => final(self)@ == old(self)@ && store_created(
                    old(self)@,
                    record@,
                    creator@,
                ) == Err::<StoresState, StoreFault>(e),
            },
    {
        if self.records.has(record.id.as_str()) {
            return Err(StoreFault::Conflict);
        }
        let key = join4("creatorof::", creator, "::", record.id.as_str());
        self.records.put(record.id.as_str(), record.copy());
        self.links.put(key.as_str(), "true".to_owned());
        Ok(())
    }

    /// Change a store.
    pub fn update_store(&mut self, record: &StoreRecord) -> (r: Result<(), StoreFault>)
        ensures
            match r {
                Ok(_) => store_updated(old(self)@, record@) == Ok::<StoresState, StoreFault>(
                    final(self)@,
                ),
                Err(e) => final(self)@ == old(self)@ && store_updated(old(self)@, record@) == Err::<
                    StoresState,
                    StoreFault,
                >(e),
            },
    {
        if !self.records.has(record.id.as_str()) {
            return Err(StoreFault::NotFound);
        }
        self.records.put(record.id.as_str(), record.copy());
        Ok(())
    }

    /// Count one more signal in a store.
    pub fn record_signal(&mut self, store: &str)
        requires
            store_or_empty(old(self)@, store@).signal_count < i64::MAX,
        ensures
            final(self)@ == signal_recorded(old(self)@, store@),
    {
        let mut record = self.store_or_empty(store);
        record.signal_count = record.signal_count + 1;
        self.records.put(store, record);
    }

    /// Remove a store with its metadata and the links of its creators.
    pub fn delete_store(&mut self, store: &str)
        ensures
            final(self)@ == store_deleted(old(self)@, store@),
    {
        let suffix = join2("::", store);
        let ghost rows = self.links@;
        let mut keys: Vec<String> = Vec::new();
        let mut i: usize = 0;
        assert(texts(keys@) =~= Seq::empty());
        assert(rows.subrange(0, 0) =~= Seq::empty());
        while i < self.links.len()
            invariant
                i <= self.links@.len(),
                self@ == old(self)@,
                rows == self.links@,
                suffix@ == "::"@ + store@,
                texts(keys@) == creator_keys(rows.subrange(0, i as int), store@),
            decreases self.links@.len() - i,
        {
            let ghost upto = rows.subrange(0, i + 1);
            assert(upto.drop_last() =~= rows.subrange(0, i as int));
            assert(upto.last() == rows[i as int]);
            let key = self.links.key_at(i);
            let linked: bool = match strip_prefix(key, "creatorof::") {
                Some(rest) => strip_suffix(rest, suffix.as_str()).is_some(),
                None => false,
            };
            if linked {
                let ghost before = keys@;
                keys.push(key.to_owned());
                assert(texts(keys@) =~= texts(before).push(key@));
            }
            i = i + 1;
        }
        assert(rows.subrange(0, rows.len() as int) =~= rows);
        let ghost all = texts(keys@);
        let mut k: usize = 0;
        assert(all.subrange(0, 0) =~= Seq::empty());
        while k < keys.len()
            invariant
                k <= keys@.len(),
                all == texts(keys@),
                self@.records == old(self)@.records,
                self@.metadata == old(self)@.metadata,
                self@.links == without_keys(rows, all.subrange(0, k as int)),
            decreases keys.len() - k,
        {
            let ghost upto = all.subrange(0, k + 1);
            assert(upto.drop_last() =~= all.subrange(0, k as int));
            assert(upto.last() == keys@[k as int]@);
            self.links.remove(keys[k].as_str());
            k = k + 1;
        }
        assert(all.subrange(0, all.len() as int) =~= all);
        self.records.remove(store);
        let meta = join2("StoreMeta::", store);
        self.metadata.remove(meta.as_str());
    }

    /// Remove the link from a creator to a store.
    pub fn release_creator(&mut self, store: &str, creator: &str)
        ensures
            final(self)@ == (StoresState {
                links: dropped(old(self)@.links, creator_key(creator@, store@)),
                ..old(self)@
            }),
    {
        let key = join4("creatorof::", creator, "::", store);
        self.links.remove(key.as_str());
    }
}

// ---------------------------------------------------------------- members

/// What stands behind a prefix in the keys that have it and go on.
pub open spec fn names_behind(links: Rows<Seq<char>>, prefix: Seq<char>) -> Seq<Seq<char>>
    decreases links.len(),
{
    if links.len() == 0 {
        Seq::empty()
    } else {
        let before = names_behind(links.drop_last(), prefix);
        let key = links.last().0;
        if has_prefix(key, prefix) && key.len() > prefix.len() {
            before.push(key.subrange(prefix.len() as int, key.len() as int))
        } else {
            before
        }
    }
}

/// The members of a store, in order.
pub open spec fn members_of(links: Rows<Seq<char>>, store: Seq<char>) -> Seq<Seq<char>> {
    ascending(names_behind(links, "onaccess::"@ + store + "::"@))
}

/// The stores that a member belongs to, in order.
pub open spec fn stores_of_member(links: Rows<Seq<char>>, member: Seq<char>) -> Seq<Seq<char>> {
    ascending(names_behind(links, "hasaccess::"@ + member + "::"@))
}

/// The links after someone joined a store.
pub open spec fn joined_store(
    links: Rows<Seq<char>>,
    store: Seq<char>,
    member: Seq<char>,
    permissions: StorePermissions,
) -> Rows<Seq<char>> {
    stored(
        stored(links, access_key(store, member), encoded_permissions(permissions)),
        member_key(member, store),
        "true"@,
    )
}

/// The links after a member left a store.
pub open spec fn left_store(
    links: Rows<Seq<char>>,
    store: Seq<char>,
    member: Seq<char>,
) -> Rows<Seq<char>> {
    dropped(dropped(links, access_key(store, member)), member_key(member, store))
}

/// What stands behind a prefix in the keys that have it and go on.
pub fn collect_names(links: &Table<String>, prefix: &str) -> (r: Vec<String>)
    ensures
        texts(r@) == names_behind(links@, prefix@),
{
    let ghost rows = links@;
    let mut out: Vec<String> = Vec::new();
    let mut i: usize = 0;
    assert(texts(out@) =~= Seq::empty());
    assert(rows.subrange(0, 0) =~= Seq::empty());
    while i < links.len()
        invariant
            i <= links@.len(),
            rows == links@,
            texts(out@) == names_behind(rows.subrange(0, i as int), prefix@),
        decreases links@.len() - i,
    {
        let ghost upto = rows.subrange(0, i + 1);
        assert(upto.drop_last() =~= rows.subrange(0, i as int));
        assert(upto.last() == rows[i as int]);
        match strip_prefix(links.key_at(i), prefix) {
            Some(rest) => {
                if !rest.is_empty() {
                    let ghost before = out@;
                    out.push(rest.to_owned());
                    assert(texts(out@) =~= texts(before).push(rest@));
                }
            },
            None => {},
        }
        i = i + 1;
    }
    assert(rows.subrange(0, rows.len() as int) =~= rows);
    out
}

/// The members of a store, in order.
pub fn members(links: &Table<String>, store: &str) -> (r: Vec<String>)
    ensures
        texts(r@) == members_of(links@, store@),
{
    let prefix = crate::text::join3("onaccess::", store, "::");
    let names = collect_names(links, prefix.as_str());
    sort_texts(&names)
}

/// The stores that a member belongs to, in order.
pub fn stores_of(links: &Table<String>, member: &str) -> (r: Vec<String>)
    ensures
        texts(r@) == stores_of_member(links@, member@),
{
    let prefix = crate::text::join3("hasaccess::", member, "::");
    let names = collect_names(links, prefix.as_str());
    sort_texts(&names)
}

/// Whether someone belongs to a store.
pub fn is_member(links: &Table<String>, store: &str, member: &str) -> (r: bool)
    ensures
        r == (link_of(links@, member_key(member@, store@)) == "true"@),
{
    proof {
        reveal_strlit("true");
        assert("true"@.len() == 4);
    }
    let key = join4("hasaccess::", member, "::", store);
    match links.get(key.as_str()) {
        Some(text) => same(text.as_str(), "true"),
        None => false,
    }
}

/// Make someone a member of a store.
pub fn join(links: &mut Table<String>, store: &str, member: &str, permissions: StorePermissions)
    ensures
        final(links)@ == joined_store(old(links)@, store@, member@, permissions),
{
    let access = access_link_key(store, member);
    let key = join4("hasaccess::", member, "::", store);
    links.put(access.as_str(), permissions.encode());
    links.put(key.as_str(), "true".to_owned());
}

/// Change the permissions of a member.
pub fn set_permissions(
    links: &mut Table<String>,
    store: &str,
    member: &str,
    permissions: StorePermissions,
)
    ensures
        final(links)@ == stored(
            old(links)@,
            access_key(store@, member@),
            encoded_permissions(permissions),
        ),
{
    let access = access_link_key(store, member);
    links.put(access.as_str(), permissions.encode());
}

/// End a membership.
pub fn leave(links: &mut Table<String>, store: &str, member: &str)
    ensures
        final(links)@ == left_store(old(links)@, store@, member@),
{
    let access = access_link_key(store, member);
    let key = join4("hasaccess::", member, "::", store);
    links.remove(access.as_str());
    links.remove(key.as_str());
}

/// The stores that exist among the first `n` of a list.
pub open spec fn existing(records: Rows<StoreState>, ids: Seq<Seq<char>>) -> Seq<StoreState>
    decreases ids.len(),
{
    if ids.len() == 0 {
        Seq::empty()
    } else {
        let before = existing(records, ids.drop_last());
        match lookup(records, ids.last()) {
            Some(record) => before.push(record),
            None => before,
        }
    }
}

/// The first texts of a list.
pub open spec fn first_of(list: Seq<Seq<char>>, limit: int) -> Seq<Seq<char>> {
    if limit < list.len() {
        list.subrange(0, limit)
    } else {
        list
    }
}

/// The stores of a list.
pub open spec fn stores_shown(list: Seq<StoreRecord>) -> Seq<StoreState> {
    list.map_values(|s: StoreRecord| s@)
}

/// Whether a store has a member other than the given one.
pub open spec fn has_others(links: Rows<Seq<char>>, store: Seq<char>, member: Seq<char>) -> bool {
    exists|i: int|
        0 <= i < members_of(links, store).len() && #[trigger] members_of(links, store)[i] != member
}

/// The stores after a member left the listed ones, and those that were left without members
/// and are gone with it.
pub open spec fn member_removed(
    state: StoresState,
    member: Seq<char>,
    ids: Seq<Seq<char>>,
) -> (StoresState, Seq<Seq<char>>)
    decreases ids.len(),
{
    if ids.len() == 0 {
        (state, Seq::empty())
    } else {
        let (before, gone) = member_removed(state, member, ids.drop_last());
        let store = ids.last();
        let links = dropped(
            left_store(before.links, store, member),
            creator_key(member, store),
        );
        let left = StoresState { links, ..before };
        if !has_others(links, store, member) && lookup(before.records, store) is Some {
            (store_deleted(left, store), gone.push(store))
        } else {
            (left, gone)
        }
    }
}

fn others_in(links: &Table<String>, store: &str, member: &str) -> (r: bool)
    ensures
        r == has_others(links@, store@, member@),
{
    let list = members(links, store);
    let ghost all = members_of(links@, store@);
    let mut i: usize = 0;
    while i < list.len()
        invariant
            i <= list@.len(),
            all == texts(list@),
            all == members_of(links@, store@),
            forall|j: int| 0 <= j < i ==> #[trigger] all[j] == member@,
        decreases list.len() - i,
    {
        assert(all[i as int] == list@[i as int]@);
        if !same(list[i].as_str(), member) {
            assert(members_of(links@, store@)[i as int] != member@);
            return true;
        }
        i = i + 1;
    }
    false
}

impl Stores {
    /// The stores that a member belongs to and that exist, among the first `limit` of the
    /// memberships.
    pub fn member_stores(&self, member: &str, limit: usize) -> (r: Vec<StoreRecord>)
        ensures
            stores_shown(r@) == existing(
                self@.records,
                first_of(stores_of_member(self@.links, member@), limit as int),
            ),
    {
        let ids = stores_of(&self.links, member);
        let ghost all = texts(ids@);
        let n: usize = if limit < ids.len() {
            limit
        } else {
            ids.len()
        };
        let mut out: Vec<StoreRecord> = Vec::new();
        let mut i: usize = 0;
        assert(stores_shown(out@) =~= Seq::empty());
        assert(all.subrange(0, 0) =~= Seq::empty());
        while i < n
            invariant
                i <= n <= ids@.len(),
                all == texts(ids@),
                stores_shown(out@) == existing(self@.records, all.subrange(0, i as int)),
            decreases n - i,
        {
            let ghost upto = all.subrange(0, i + 1);
            assert(upto.drop_last() =~= all.subrange(0, i as int));
            assert(upto.last() == ids@[i as int]@);
            match self.store(ids[i].as_str()) {
                Some(record) => {
                    let ghost before = out@;
                    let ghost added = record@;
                    out.push(record);
                    assert(stores_shown(out@) =~= stores_shown(before).push(added));
                },
                None => {},
            }
            i = i + 1;
        }
        assert(all.subrange(0, n as int) =~= first_of(all, limit as int));
        out
    }

    /// Remove a member from every store, and delete each store that is left without
    /// members. Returns the stores that were deleted.
    pub fn remove_member_everywhere(&mut self, member: &str) -> (r: Vec<String>)
        ensures
            (final(self)@, texts(r@)) == member_removed(
                old(self)@,
                member@,
                stores_of_member(old(self)@.links, member@),
            ),
    {
        let ids = stores_of(&self.links, member);
        let ghost all = texts(ids@);
        let ghost start = self@;
        let mut gone: Vec<String> = Vec::new();
        let mut i: usize = 0;
        assert(texts(gone@) =~= Seq::empty());
        assert(all.subrange(0, 0) =~= Seq::empty());
        while i < ids.len()
            invariant
                i <= ids@.len(),
                all == texts(ids@),
                (self@, texts(gone@)) == member_removed(start, member@, all.subrange(0, i as int)),
            decreases ids.len() - i,
        {
            let ghost upto = all.subrange(0, i + 1);
            assert(upto.drop_last() =~= all.subrange(0, i as int));
            assert(upto.last() == ids@[i as int]@);
            let store = ids[i].as_str();
            leave(&mut self.links, store, member);
            self.release_creator(store, member);
            if !others_in(&self.links, store, member) && self.records.has(store) {
                self.delete_store(store);
                let ghost before = gone@;
                gone.push(store.to_owned());
                assert(texts(gone@) =~= texts(before).push(store@));
            }
            i = i + 1;
        }
        assert(all.subrange(0, all.len() as int) =~= all);
        gone
    }
}

// ---------------------------------------------------------------- listing

/// The keys of rows.
pub open spec fn keys_of<T>(rows: Rows<T>) -> Seq<Seq<char>> {
    Seq::new(rows.len(), |i: int| rows[i].0)
}

/// The members of a store with what each may do.
pub open spec fn members_shown(links: Rows<Seq<char>>, store: Seq<char>) -> Seq<
    (Seq<char>, StorePermissions),
> {
    Seq::new(
        members_of(links, store).len(),
        |i: int|
            (
                members_of(links, store)[i],
                parsed_permissions(link_of(links, access_key(store, members_of(links, store)[i]))),
            ),
    )
}

/// The members of a store with what each may do, in order.
pub fn member_permissions(links: &Table<String>, store: &str) -> (r: Vec<
    (String, StorePermissions),
>)
    ensures
        r@.len() == members_shown(links@, store@).len(),
        forall|i: int|
            0 <= i < r@.len() ==> ((#[trigger] r@[i]).0@, r@[i].1) == members_shown(
                links@,
                store@,
            )[i],
{
    let names = members(links, store);
    let ghost all = texts(names@);
    let mut out: Vec<(String, StorePermissions)> = Vec::new();
    let mut i: usize = 0;
    while i < names.len()
        invariant
            i <= names@.len(),
            all == texts(names@),
            all == members_of(links@, store@),
            out@.len() == i,
            forall|j: int|
                0 <= j < i ==> ((#[trigger] out@[j]).0@, out@[j].1) == members_shown(
                    links@,
                    store@,
                )[j],
        decreases names@.len() - i,
    {
        assert(all[i as int] == names@[i as int]@);
        let may = read_permissions(links, store, names[i].as_str());
        out.push((names[i].clone(), may));
        i = i + 1;
    }
    out
}

impl Stores {
    /// All stores, in the order of their ids.
    pub fn stores(&self) -> (r: Vec<StoreRecord>)
        ensures
            stores_shown(r@) == existing(self@.records, ascending(keys_of(self@.records))),
    {
        let ghost rows = self@.records;
        let mut ids: Vec<String> = Vec::new();
        let mut i: usize = 0;
        while i < self.records.len()
            invariant
                i <= self.records@.len(),
                rows == self.records@,
                ids@.len() == i,
                forall|j: int| 0 <= j < i ==> (#[trigger] ids@[j])@ == rows[j].0,
            decreases self.records@.len() - i,
        {
            ids.push(self.records.key_at(i).to_owned());
            i = i + 1;
        }
        assert(texts(ids@) =~= keys_of(rows));
        let sorted = sort_texts(&ids);
        let ghost all = texts(sorted@);
        let mut out: Vec<StoreRecord> = Vec::new();
        let mut k: usize = 0;
        assert(stores_shown(out@) =~= Seq::empty());
        assert(all.subrange(0, 0) =~= Seq::empty());
        while k < sorted.len()
            invariant
                k <= sorted@.len(),
                all == texts(sorted@),
                rows == self.records@,
                stores_shown(out@) == existing(rows, all.subrange(0, k as int)),
            decreases sorted@.len() - k,
        {
            let ghost upto = all.subrange(0, k + 1);
            assert(upto.drop_last() =~= all.subrange(0, k as int));
            assert(upto.last() == sorted@[k as int]@);
            if let Some(record) = self.store(sorted[k].as_str()) {
                let ghost before = stores_shown(out@);
                let ghost shown = record@;
                out.push(record);
                assert(stores_shown(out@) =~= before.push(shown));
            }
            k = k + 1;
        }
        assert(all.subrange(0, all.len() as int) =~= all);
        out
    }

    /// Lay what a text reads as over the metadata of a store. A text that is no object is
    /// refused.
    pub fn merge_store_metadata(&mut self, store: &str, document: &str) -> (r: Result<(), String>)
        ensures
            match object_in(parsed_json(document@)) {
                Some(tree) => r is Ok && final(self)@ == metadata_merged(old(self)@, store@, tree),
                None => final(self)@ == old(self)@ && (r matches Err(e) && e@
                    == "metadata must be a JSON object"@),
            },
    {
        match object_of(json_read(document)) {
            Some(read) => {
                self.merge_metadata_value(store, &read);
                Ok(())
            },
            None => Err("metadata must be a JSON object".to_owned()),
        }
    }

    /// Lay a document over the metadata of a store. One that is no object is ignored.
    pub fn merge_metadata_value(&mut self, store: &str, document: &Json)
        ensures
            final(self)@ == if document@ is Object {
                metadata_merged(old(self)@, store@, document@)
            } else {
                old(self)@
            },
    {
        if !document.is_object() {
            return;
        }
        let key = join2("StoreMeta::", store);
        let next: Json = match self.metadata.get(key.as_str()) {
            Some(earlier) => earlier.merge(document),
            None => document.copy(),
        };
        self.metadata.put(key.as_str(), next);
    }
}

// ---------------------------------------------------------------- laws

proof fn lemma_keys_apart(store: Seq<char>, member: Seq<char>, other: Seq<char>, third: Seq<char>)
    ensures
        access_key(store, member) != member_key(other, third),
{
    reveal_strlit("onaccess::");
    reveal_strlit("hasaccess::");
    assert(access_key(store, member)[0] == 'o');
    assert(member_key(other, third)[0] == 'h');
}

/// One who joined a store is a member with exactly the given permissions, until they leave.
pub proof fn law_joining_and_leaving(
    links: Rows<Seq<char>>,
    store: Seq<char>,
    member: Seq<char>,
    permissions: StorePermissions,
)
    ensures
        ({
            let within = joined_store(links, store, member, permissions);
            let without = left_store(within, store, member);
            &&& link_of(within, member_key(member, store)) == "true"@
            &&& parsed_permissions(link_of(within, access_key(store, member))) == permissions
            &&& lookup(without, member_key(member, store)) is None
            &&& lookup(without, access_key(store, member)) is None
        }),
{
    lemma_keys_apart(store, member, member, store);
    law_recorded_permissions_read_back(permissions);
    let within = joined_store(links, store, member, permissions);
    let a = access_key(store, member);
    let b = member_key(member, store);
    law_lookup_after_drop(within, a, a);
    law_lookup_after_drop(dropped(within, a), b, a);
    law_lookup_after_drop(dropped(within, a), b, b);
}

/// A key with a row is found.
pub proof fn lemma_row_found<T>(rows: Rows<T>, key: Seq<char>, from: int, i: int)
    requires
        0 <= from <= i < rows.len(),
        rows[i].0 == key,
    ensures
        row_from(rows, key, from) is Some,
    decreases i - from,
{
    if rows[from].0 != key {
        lemma_row_found(rows, key, from + 1, i);
    }
}

/// What is found is a row of the key.
pub proof fn lemma_found_row<T>(rows: Rows<T>, key: Seq<char>, from: int)
    requires
        row_from(rows, key, from) is Some,
    ensures
        0 <= row_from(rows, key, from)->0 < rows.len(),
        rows[row_from(rows, key, from)->0].0 == key,
    decreases rows.len() - from,
{
    if from >= 0 && from < rows.len() && rows[from].0 != key {
        lemma_found_row(rows, key, from + 1);
    }
}

/// Every name behind a prefix is that of a key of the rows.
pub proof fn lemma_name_has_key(links: Rows<Seq<char>>, prefix: Seq<char>, i: int)
    requires
        0 <= i < names_behind(links, prefix).len(),
    ensures
        lookup(links, prefix + names_behind(links, prefix)[i]) is Some,
    decreases links.len(),
{
    let front = links.drop_last();
    let before = names_behind(front, prefix);
    let name = names_behind(links, prefix)[i];
    if i < before.len() {
        lemma_name_has_key(front, prefix, i);
        lemma_found_row(front, prefix + name, 0);
        let at = row_from(front, prefix + name, 0)->0;
        assert(links[at] == front[at]);
        lemma_row_found(links, prefix + name, 0, at);
    } else {
        let key = links.last().0;
        assert(key.subrange(0, prefix.len() as int) =~= prefix);
        assert(prefix + name =~= key);
        lemma_row_found(links, key, 0, links.len() - 1);
    }
}

/// The name of every key behind a prefix is collected.
pub proof fn lemma_key_has_name(links: Rows<Seq<char>>, prefix: Seq<char>, name: Seq<char>, at: int)
    requires
        0 <= at < links.len(),
        links[at].0 == prefix + name,
        name.len() > 0,
    ensures
        names_behind(links, prefix).contains(name),
    decreases links.len(),
{
    let front = links.drop_last();
    let before = names_behind(front, prefix);
    if at == links.len() - 1 {
        let key = links.last().0;
        assert(key.subrange(0, prefix.len() as int) =~= prefix);
        assert(key.subrange(prefix.len() as int, key.len() as int) =~= name);
        assert(names_behind(links, prefix).last() == name);
    } else {
        lemma_key_has_name(front, prefix, name, at);
        let j = choose|j: int| 0 <= j < before.len() && before[j] == name;
        assert(names_behind(links, prefix)[j] == name);
    }
}

proof fn lemma_drop_only_drops(links: Rows<Seq<char>>, gone: Seq<char>, key: Seq<char>)
    requires
        lookup(dropped(links, gone), key) is Some,
    ensures
        lookup(links, key) is Some,
{
    law_lookup_after_drop(links, gone, key);
}

proof fn lemma_without_only_drops(links: Rows<Seq<char>>, keys: Seq<Seq<char>>, key: Seq<char>)
    requires
        lookup(without_keys(links, keys), key) is Some,
    ensures
        lookup(links, key) is Some,
    decreases keys.len(),
{
    if keys.len() > 0 {
        lemma_drop_only_drops(without_keys(links, keys.drop_last()), keys.last(), key);
        lemma_without_only_drops(links, keys.drop_last(), key);
    }
}

/// Removing a member only removes links, and removes that of each listed store.
proof fn lemma_removal(state: StoresState, member: Seq<char>, ids: Seq<Seq<char>>, key: Seq<char>)
    requires
        lookup(member_removed(state, member, ids).0.links, key) is Some,
    ensures
        lookup(state.links, key) is Some,
        forall|i: int| 0 <= i < ids.len() ==> key != member_key(member, #[trigger] ids[i]),
    decreases ids.len(),
{
    if ids.len() > 0 {
        let (before, gone) = member_removed(state, member, ids.drop_last());
        let store = ids.last();
        let a = access_key(store, member);
        let b = member_key(member, store);
        let c = creator_key(member, store);
        let one = dropped(before.links, a);
        let two = dropped(one, b);
        let links = dropped(two, c);
        if !has_others(links, store, member) && lookup(before.records, store) is Some {
            lemma_without_only_drops(links, creator_keys(links, store), key);
        }
        lemma_drop_only_drops(two, c, key);
        law_lookup_after_drop(one, b, key);
        lemma_drop_only_drops(one, b, key);
        lemma_drop_only_drops(before.links, a, key);
        lemma_removal(state, member, ids.drop_last(), key);
        assert forall|i: int| 0 <= i < ids.len() implies key != member_key(
            member,
            #[trigger] ids[i],
        ) by {
            if i < ids.len() - 1 {
                assert(ids.drop_last()[i] == ids[i]);
            }
        }
    }
}

/// A member that was removed everywhere belongs to no store any more.
pub proof fn law_a_removed_member_belongs_nowhere(state: StoresState, member: Seq<char>)
    ensures
        stores_of_member(
            member_removed(state, member, stores_of_member(state.links, member)).0.links,
            member,
        ).len() == 0,
{
    let prefix = "hasaccess::"@ + member + "::"@;
    let ids = stores_of_member(state.links, member);
    let after = member_removed(state, member, ids).0.links;
    let left = names_behind(after, prefix);
    law_sorting_orders_and_keeps(left);
    law_sorting_orders_and_keeps(names_behind(state.links, prefix));
    if left.len() > 0 {
        let name = left[0];
        lemma_name_has_key(after, prefix, 0);
        let key = prefix + name;
        lemma_removal(state, member, ids, key);
        lemma_found_row(state.links, key, 0);
        lemma_names_go_on(after, prefix, 0);
        lemma_key_has_name(state.links, prefix, name, row_from(state.links, key, 0)->0);
        let all = names_behind(state.links, prefix);
        all.to_multiset_ensures();
        ids.to_multiset_ensures();
        assert(all.to_multiset().count(name) > 0);
        assert(ids.contains(name));
        let j = choose|j: int| 0 <= j < ids.len() && ids[j] == name;
        assert(key =~= member_key(member, ids[j]));
    }
}

/// No name behind a prefix is empty.
/// No name behind a prefix is empty.
pub proof fn lemma_names_go_on(links: Rows<Seq<char>>, prefix: Seq<char>, i: int)
    requires
        0 <= i < names_behind(links, prefix).len(),
    ensures
        names_behind(links, prefix)[i].len() > 0,
    decreases links.len(),
{
    let before = names_behind(links.drop_last(), prefix);
    if i < before.len() {
        lemma_names_go_on(links.drop_last(), prefix, i);
    }
}

/// A store that is created exists, and cannot be created again.
pub proof fn law_a_store_is_created_once(
    state: StoresState,
    record: StoreState,
    creator: Seq<char>,
    after: StoresState,
    other: StoreState,
    another: Seq<char>,
)
    requires
        store_created(state, record, creator) == Ok::<StoresState, StoreFault>(after),
        other.id == record.id,
    ensures
        lookup(after.records, record.id) == Some(record),
        lookup(after.links, creator_key(creator, record.id)) == Some("true"@),
        store_created(after, other, another) == Err::<StoresState, StoreFault>(
            StoreFault::Conflict,
        ),
{
}

} // verus!
