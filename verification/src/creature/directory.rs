//! The creatures of the node: their records, user names, owners, and balances.
use vstd::prelude::*;

use crate::finance::ledger::link_of;
use crate::json::{object_in, object_of, Json, Tree};
use crate::order::{ascending, sort_texts};
use crate::outside::{json_read, parsed_json};
use crate::table::{
    dropped, law_lookup_after_drop, law_lookup_after_store, lookup, stored, Rows, Table,
};
use crate::text::{join2, join4, same, texts};

verus! {

broadcast use {vstd::string::group_string_axioms, law_lookup_after_store};

/// The identity of a creature.
pub struct CreatureRecord {
    pub id: String,
    pub creature_type: String,
    pub username: String,
    pub public_key: String,
    pub chain_id: String,
    pub subchain_id: String,
    pub owner_id: String,
}

/// The identity of a creature, as texts.
pub struct Creature {
    pub id: Seq<char>,
    pub creature_type: Seq<char>,
    pub username: Seq<char>,
    pub public_key: Seq<char>,
    pub chain_id: Seq<char>,
    pub subchain_id: Seq<char>,
    pub owner_id: Seq<char>,
}

impl View for CreatureRecord {
    type V = Creature;

    open spec fn view(&self) -> Creature {
        Creature {
            id: self.id@,
            creature_type: self.creature_type@,
            username: self.username@,
            public_key: self.public_key@,
            chain_id: self.chain_id@,
            subchain_id: self.subchain_id@,
            owner_id: self.owner_id@,
        }
    }
}

impl CreatureRecord {
    /// A copy of the record.
    pub fn copy(&self) -> (r: CreatureRecord)
        ensures
            r@ == self@,
    {
        CreatureRecord {
            id: self.id.clone(),
            creature_type: self.creature_type.clone(),
            username: self.username.clone(),
            public_key: self.public_key.clone(),
            chain_id: self.chain_id.clone(),
            subchain_id: self.subchain_id.clone(),
            owner_id: self.owner_id.clone(),
        }
    }
}

/// Why a change of the directory is refused.
#[derive(PartialEq, Eq, Structural, Clone, Copy, Debug)]
pub enum CreatureFault {
    Conflict,
    NotFound,
}

/// The creatures of the node: their records, the user names that lead to them, the links
/// from owners to what they own, and the balances.
pub struct Creatures {
    pub records: Table<CreatureRecord>,
    pub usernames: Table<String>,
    pub links: Table<String>,
    pub balances: Table<i64>,
}

/// The creatures of the node, as texts and numbers.
pub struct CreaturesState {
    pub records: Rows<Creature>,
    pub usernames: Rows<Seq<char>>,
    pub links: Rows<Seq<char>>,
    pub balances: Rows<i64>,
}

impl View for Creatures {
    type V = CreaturesState;

    open spec fn view(&self) -> CreaturesState {
        CreaturesState {
            records: self.records@,
            usernames: self.usernames@,
            links: self.links@,
            balances: self.balances@,
        }
    }
}

// ---------------------------------------------------------------- owner links

/// The key of the link from an owner to a creature.
pub open spec fn owner_key(owner: Seq<char>, creature: Seq<char>) -> Seq<char> {
    "ownerof::"@ + owner + "::"@ + creature
}

/// The link from the owner of a creature, where it has one: humans have none.
pub open spec fn owner_link(record: Creature) -> Option<Seq<char>> {
    if record.creature_type != "human"@ && record.owner_id.len() > 0 {
        Some(owner_key(record.owner_id, record.id))
    } else {
        None
    }
}

/// The links with that of a creature.
pub open spec fn with_owner(links: Rows<Seq<char>>, record: Creature) -> Rows<Seq<char>> {
    match owner_link(record) {
        Some(key) => stored(links, key, "true"@),
        None => links,
    }
}

/// The links without that of a creature.
pub open spec fn without_owner(links: Rows<Seq<char>>, record: Creature) -> Rows<Seq<char>> {
    match owner_link(record) {
        Some(key) => dropped(links, key),
        None => links,
    }
}

fn owner_link_of(record: &CreatureRecord) -> (r: Option<String>)
    ensures
        match r {
            Some(key) => owner_link(record@) == Some(key@),
            None => owner_link(record@) is None,
        },
{
    if same(record.creature_type.as_str(), "human") || record.owner_id.as_str().is_empty() {
        None
    } else {
        Some(join4("ownerof::", record.owner_id.as_str(), "::", record.id.as_str()))
    }
}

// ---------------------------------------------------------------- records

/// The creature that a user name leads to.
pub open spec fn named(state: CreaturesState, username: Seq<char>) -> Option<Seq<char>> {
    let id = link_of(state.usernames, username);
    if id.len() > 0 {
        Some(id)
    } else {
        None
    }
}

/// The user names with that of a creature, where it has one.
pub open spec fn with_name(usernames: Rows<Seq<char>>, record: Creature) -> Rows<Seq<char>> {
    if record.username.len() > 0 {
        stored(usernames, record.username, record.id)
    } else {
        usernames
    }
}

/// The user names without that of a creature.
pub open spec fn without_name(usernames: Rows<Seq<char>>, record: Creature) -> Rows<Seq<char>> {
    if record.username.len() > 0 {
        dropped(usernames, record.username)
    } else {
        usernames
    }
}

/// The creatures with a new one. Neither its identifier nor its user name may be taken.
pub open spec fn creature_created(state: CreaturesState, record: Creature) -> Result<
    CreaturesState,
    CreatureFault,
> {
    if lookup(state.records, record.id) is Some || named(state, record.username) is Some {
        Err(CreatureFault::Conflict)
    } else {
        Ok(
            CreaturesState {
                records: stored(state.records, record.id, record),
                usernames: with_name(state.usernames, record),
                links: with_owner(state.links, record),
                ..state
            },
        )
    }
}

/// The creatures with a change of one. Its user name and its owner's link follow it.
pub open spec fn creature_updated(state: CreaturesState, record: Creature) -> Result<
    CreaturesState,
    CreatureFault,
> {
    match lookup(state.records, record.id) {
        None => Err(CreatureFault::NotFound),
        Some(current) => {
            let renamed = current.username != record.username;
            if renamed && named(state, record.username) is Some {
                Err(CreatureFault::Conflict)
            } else {
                let freed = if renamed {
                    without_name(state.usernames, current)
                } else {
                    state.usernames
                };
                Ok(
                    CreaturesState {
                        records: stored(state.records, record.id, record),
                        usernames: with_name(freed, record),
                        links: if owner_link(current) == owner_link(record) {
                            state.links
                        } else {
                            with_owner(without_owner(state.links, current), record)
                        },
                        ..state
                    },
                )
            }
        },
    }
}

/// The creatures without one of them. Its user name and its owner's link go with it.
pub open spec fn creature_deleted(state: CreaturesState, id: Seq<char>) -> CreaturesState {
    match lookup(state.records, id) {
        None => state,
        Some(current) => CreaturesState {
            records: dropped(state.records, id),
            usernames: without_name(state.usernames, current),
            links: without_owner(state.links, current),
            ..state
        },
    }
}

impl Creatures {
    /// No creatures.
    pub fn new() -> (r: Self)
        ensures
            r@.records.len() == 0,
            r@.usernames.len() == 0,
            r@.links.len() == 0,
            r@.balances.len() == 0,
    {
        Creatures {
            records: Table::new(),
            usernames: Table::new(),
            links: Table::new(),
            balances: Table::new(),
        }
    }

    /// A creature.
    pub fn creature(&self, id: &str) -> (r: Option<CreatureRecord>)
        ensures
            match r {
                Some(record) => lookup(self@.records, id@) == Some(record@),
                None => lookup(self@.records, id@) is None,
            },
    {
        match self.records.get(id) {
            Some(record) => Some(record.copy()),
            None => None,
        }
    }

    /// The creature that a user name leads to.
    pub fn creature_id_by_username(&self, username: &str) -> (r: Option<String>)
        ensures
            match r {
                Some(id) => named(self@, username@) == Some(id@),
                None => named(self@, username@) is None,
            },
    {
        match self.usernames.get(username) {
            Some(id) => if id.as_str().is_empty() {
                None
            } else {
                Some(id.clone())
            },
            None => None,
        }
    }

    /// Add a creature.
    pub fn create(&mut self, record: &CreatureRecord) -> (r: Result<(), CreatureFault>)
        ensures
            match r {
                Ok(_) => creature_created(old(self)@, record@) == Ok::<
                    CreaturesState,
                    CreatureFault,
                >(final(self)@),
                Err(e) => final(self)@ == old(self)@ && creature_created(old(self)@, record@)
                    == Err::<CreaturesState, CreatureFault>(e),
            },
    {
        if self.records.has(record.id.as_str()) || self.creature_id_by_username(
            record.username.as_str(),
        ).is_some() {
            return Err(CreatureFault::Conflict);
        }
        self.records.put(record.id.as_str(), record.copy());
        if !record.username.as_str().is_empty() {
            self.usernames.put(record.username.as_str(), record.id.clone());
        }
        match owner_link_of(record) {
            Some(key) => self.links.put(key.as_str(), "true".to_owned()),
            None => {},
        }
        Ok(())
    }

    /// Change a creature.
    pub fn update(&mut self, record: &CreatureRecord) -> (r: Result<(), CreatureFault>)
        ensures
            match r {
                Ok(_) => creature_updated(old(self)@, record@) == Ok::<
                    CreaturesState,
                    CreatureFault,
                >(final(self)@),
                Err(e) => final(self)@ == old(self)@ && creature_updated(old(self)@, record@)
                    == Err::<CreaturesState, CreatureFault>(e),
            },
    {
        let current = match self.creature(record.id.as_str()) {
            Some(current) => current,
            None => {
                return Err(CreatureFault::NotFound);
            },
        };
        if !same(current.username.as_str(), record.username.as_str()) {
            if self.creature_id_by_username(record.username.as_str()).is_some() {
                return Err(CreatureFault::Conflict);
            }
            if !current.username.as_str().is_empty() {
                self.usernames.remove(current.username.as_str());
            }
        }
        self.records.put(record.id.as_str(), record.copy());
        if !record.username.as_str().is_empty() {
            self.usernames.put(record.username.as_str(), record.id.clone());
        }
        let before = owner_link_of(&current);
        let after = owner_link_of(record);
        let unchanged: bool = match (&before, &after) {
            (Some(a), Some(b)) => same(a.as_str(), b.as_str()),
            (None, None) => true,
            _ => false,
        };
        if !unchanged {
            match before {
                Some(key) => self.links.remove(key.as_str()),
                None => {},
            }
            match after {
                Some(key) => self.links.put(key.as_str(), "true".to_owned()),
                None => {},
            }
        }
        Ok(())
    }

    /// Remove a creature.
    pub fn delete(&mut self, id: &str)
        ensures
            final(self)@ == creature_deleted(old(self)@, id@),
    {
        match self.creature(id) {
            Some(current) => {
                match owner_link_of(&current) {
                    Some(key) => self.links.remove(key.as_str()),
                    None => {},
                }
                if !current.username.as_str().is_empty() {
                    self.usernames.remove(current.username.as_str());
                }
                self.records.remove(id);
            },
            None => {},
        }
    }
}

// ---------------------------------------------------------------- balances

/// A creature's balance.
pub struct Account {
    pub id: String,
    pub balance: i64,
}

/// The balance of a creature; one that was never opened is zero.
pub open spec fn balance_of(state: CreaturesState, id: Seq<char>) -> Option<i64> {
    if lookup(state.records, id) is None {
        None
    } else {
        match lookup(state.balances, id) {
            Some(balance) => Some(balance),
            None => Some(0i64),
        }
    }
}

impl Creatures {
    /// The account of a creature that exists.
    pub fn account(&self, id: &str) -> (r: Option<Account>)
        ensures
            match r {
                Some(account) => account.id@ == id@ && balance_of(self@, id@) == Some(
                    account.balance,
                ),
                None => balance_of(self@, id@) is None,
            },
    {
        if !self.records.has(id) {
            return None;
        }
        let balance: i64 = match self.balances.get(id) {
            Some(balance) => *balance,
            None => 0,
        };
        Some(Account { id: id.to_owned(), balance })
    }

    /// The account of a creature; one that does not exist reads as empty.
    pub fn account_or_empty(&self, id: &str) -> (r: Account)
        ensures
            r.id@ == id@,
            r.balance == match balance_of(self@, id@) {
                Some(balance) => balance,
                None => 0,
            },
    {
        match self.account(id) {
            Some(account) => account,
            None => Account { id: id.to_owned(), balance: 0 },
        }
    }

    /// Write a balance back. It touches nothing else, and never brings a creature about.
    pub fn store_account(&mut self, account: &Account) -> (r: Result<(), CreatureFault>)
        ensures
            match r {
                Ok(_) => lookup(old(self)@.records, account.id@) is Some && final(self)@ == (
                CreaturesState {
                    balances: stored(old(self)@.balances, account.id@, account.balance),
                    ..old(self)@
                }),
                Err(e) => final(self)@ == old(self)@ && e == CreatureFault::NotFound && lookup(
                    old(self)@.records,
                    account.id@,
                ) is None,
            },
    {
        if !self.records.has(account.id.as_str()) {
            return Err(CreatureFault::NotFound);
        }
        self.balances.put(account.id.as_str(), account.balance);
        Ok(())
    }

    /// Open the balance of a creature that has none yet.
    pub fn open_balance(&mut self, id: &str, opening: i64) -> (r: Result<(), CreatureFault>)
        ensures
            match r {
                Ok(_) => lookup(old(self)@.records, id@) is Some && lookup(
                    old(self)@.balances,
                    id@,
                ) is None && final(self)@ == (CreaturesState {
                    balances: stored(old(self)@.balances, id@, opening),
                    ..old(self)@
                }),
                Err(CreatureFault::NotFound) => final(self)@ == old(self)@ && lookup(
                    old(self)@.records,
                    id@,
                ) is None,
                Err(CreatureFault::Conflict) => final(self)@ == old(self)@ && lookup(
                    old(self)@.records,
                    id@,
                ) is Some && lookup(old(self)@.balances, id@) is Some,
            },
    {
        if !self.records.has(id) {
            return Err(CreatureFault::NotFound);
        }
        if self.balances.has(id) {
            return Err(CreatureFault::Conflict);
        }
        self.balances.put(id, opening);
        Ok(())
    }

    /// Close the balance of a creature.
    pub fn close_balance(&mut self, id: &str)
        ensures
            final(self)@ == (CreaturesState {
                balances: dropped(old(self)@.balances, id@),
                ..old(self)@
            }),
    {
        self.balances.remove(id);
    }
}

// ---------------------------------------------------------------- listing

/// The ids of the creatures of a type, or of all of them.
pub open spec fn ids_of_type(records: Rows<Creature>, kind: Option<Seq<char>>) -> Seq<Seq<char>>
    decreases records.len(),
{
    if records.len() == 0 {
        Seq::empty()
    } else {
        let before = ids_of_type(records.drop_last(), kind);
        let (id, record) = records.last();
        if kind is None || kind->0 == record.creature_type {
            before.push(id)
        } else {
            before
        }
    }
}

/// The records under ids.
pub open spec fn records_under(records: Rows<Creature>, ids: Seq<Seq<char>>) -> Seq<Creature>
    decreases ids.len(),
{
    if ids.len() == 0 {
        Seq::empty()
    } else {
        let before = records_under(records, ids.drop_last());
        match lookup(records, ids.last()) {
            Some(record) => before.push(record),
            None => before,
        }
    }
}

/// Creatures as texts.
pub open spec fn creatures_shown(list: Seq<CreatureRecord>) -> Seq<Creature> {
    Seq::new(list.len(), |i: int| list[i]@)
}

impl Creatures {
    /// The creatures of a type, or all of them, in the order of their ids.
    pub fn creatures(&self, kind: Option<&str>) -> (r: Vec<CreatureRecord>)
        ensures
            creatures_shown(r@) == records_under(
                self@.records,
                ascending(
                    ids_of_type(
                        self@.records,
                        match kind {
                            Some(name) => Some(name@),
                            None => None,
                        },
                    ),
                ),
            ),
    {
        let ghost wanted = match kind {
            Some(name) => Some(name@),
            None => None,
        };
        let ghost rows = self@.records;
        let mut ids: Vec<String> = Vec::new();
        let mut i: usize = 0;
        assert(texts(ids@) =~= Seq::empty());
        assert(rows.subrange(0, 0) =~= Seq::empty());
        while i < self.records.len()
            invariant
                i <= self.records@.len(),
                rows == self.records@,
                wanted == match kind {
                    Some(name) => Some(name@),
                    None => None,
                },
                texts(ids@) == ids_of_type(rows.subrange(0, i as int), wanted),
            decreases self.records@.len() - i,
        {
            let ghost upto = rows.subrange(0, i + 1);
            assert(upto.drop_last() =~= rows.subrange(0, i as int));
            assert(upto.last() == rows[i as int]);
            let record = self.records.record_at(i);
            let takes: bool = match kind {
                Some(name) => same(name, record.creature_type.as_str()),
                None => true,
            };
            if takes {
                let ghost before = texts(ids@);
                ids.push(self.records.key_at(i).to_owned());
                assert(texts(ids@) =~= before.push(rows[i as int].0));
            }
            i = i + 1;
        }
        assert(rows.subrange(0, rows.len() as int) =~= rows);
        let sorted = sort_texts(&ids);
        let ghost all = texts(sorted@);
        let mut out: Vec<CreatureRecord> = Vec::new();
        let mut k: usize = 0;
        assert(creatures_shown(out@) =~= Seq::empty());
        assert(all.subrange(0, 0) =~= Seq::empty());
        while k < sorted.len()
            invariant
                k <= sorted@.len(),
                all == texts(sorted@),
                rows == self.records@,
                creatures_shown(out@) == records_under(rows, all.subrange(0, k as int)),
            decreases sorted@.len() - k,
        {
            let ghost upto = all.subrange(0, k + 1);
            assert(upto.drop_last() =~= all.subrange(0, k as int));
            assert(upto.last() == sorted@[k as int]@);
            if let Some(record) = self.creature(sorted[k].as_str()) {
                let ghost before = creatures_shown(out@);
                let ghost shown = record@;
                out.push(record);
                assert(creatures_shown(out@) =~= before.push(shown));
            }
            k = k + 1;
        }
        assert(all.subrange(0, all.len() as int) =~= all);
        out
    }
}

// ---------------------------------------------------------------- metadata

/// Which metadata of a creature: as a creature, or as a user.
#[derive(PartialEq, Eq, Structural, Clone, Copy, Debug)]
pub enum MetadataKind {
    Creature,
    User,
}

/// The key of a creature's metadata.
pub open spec fn metadata_key(kind: MetadataKind, id: Seq<char>) -> Seq<char> {
    match kind {
        MetadataKind::Creature => "CreatMeta::"@ + id,
        MetadataKind::User => "UserMeta::"@ + id,
    }
}

/// Replace the metadata of a creature. A document that is no object is ignored.
pub fn replace_metadata_value(
    documents: &mut Table<Json>,
    kind: MetadataKind,
    id: &str,
    document: &Json,
)
    ensures
        final(documents)@ == if document@ is Object {
            stored(old(documents)@, metadata_key(kind, id@), document@)
        } else {
            old(documents)@
        },
{
    if !document.is_object() {
        return;
    }
    let key = match kind {
        MetadataKind::Creature => join2("CreatMeta::", id),
        MetadataKind::User => join2("UserMeta::", id),
    };
    documents.put(key.as_str(), document.copy());
}

/// The documents after the metadata of a creature was replaced by what a text reads as; a text
/// that is no object is refused.
pub open spec fn metadata_replaced(
    documents: Rows<Tree>,
    kind: MetadataKind,
    id: Seq<char>,
    document: Seq<char>,
) -> Result<Rows<Tree>, Seq<char>> {
    match object_in(parsed_json(document)) {
        Some(tree) => Ok(stored(documents, metadata_key(kind, id), tree)),
        None => Err("metadata must be a JSON object"@),
    }
}

/// Replace the metadata of a creature by what a text reads as.
pub fn replace_metadata(
    documents: &mut Table<Json>,
    kind: MetadataKind,
    id: &str,
    document: &str,
) -> (r: Result<(), String>)
    ensures
        match r {
            Ok(_) => metadata_replaced(old(documents)@, kind, id@, document@) == Ok::<
                Rows<Tree>,
                Seq<char>,
            >(final(documents)@),
            Err(e) => final(documents)@ == old(documents)@ && metadata_replaced(
                old(documents)@,
                kind,
                id@,
                document@,
            ) == Err::<Rows<Tree>, Seq<char>>(e@),
        },
{
    match object_of(json_read(document)) {
        Some(read) => {
            replace_metadata_value(documents, kind, id, &read);
            Ok(())
        },
        None => Err("metadata must be a JSON object".to_owned()),
    }
}

/// Delete the metadata of a creature.
pub fn delete_metadata(documents: &mut Table<Json>, kind: MetadataKind, id: &str)
    ensures
        final(documents)@ == dropped(old(documents)@, metadata_key(kind, id@)),
{
    let key = match kind {
        MetadataKind::Creature => join2("CreatMeta::", id),
        MetadataKind::User => join2("UserMeta::", id),
    };
    documents.remove(key.as_str());
}

// ---------------------------------------------------------------- laws

/// Whether a creature stands under its own identifier and its user name leads to it.
pub open spec fn is_placed(state: CreaturesState, id: Seq<char>) -> bool {
    let record = lookup(state.records, id)->0;
    &&& id.len() > 0
    &&& record.id == id
    &&& record.username.len() > 0 ==> lookup(state.usernames, record.username) == Some(id)
}

/// Whether every creature stands under its own identifier and its user name leads to it.
pub open spec fn is_consistent(state: CreaturesState) -> bool {
    forall|id: Seq<char>|
        #![trigger lookup(state.records, id)]
        lookup(state.records, id) is Some ==> is_placed(state, id)
}

/// No two creatures have the same user name.
pub proof fn law_user_names_are_unique(state: CreaturesState, a: Seq<char>, b: Seq<char>)
    requires
        is_consistent(state),
        lookup(state.records, a) is Some,
        lookup(state.records, b) is Some,
        lookup(state.records, a)->0.username.len() > 0,
        lookup(state.records, a)->0.username == lookup(state.records, b)->0.username,
    ensures
        a == b,
{
}

/// Creating, changing, and deleting creatures keeps user names leading to their creatures.
pub proof fn law_changes_keep_the_directory_consistent(
    state: CreaturesState,
    record: Creature,
    id: Seq<char>,
)
    requires
        is_consistent(state),
        record.id.len() > 0,
    ensures
        creature_created(state, record) matches Ok(after) ==> is_consistent(after),
        creature_updated(state, record) matches Ok(after) ==> is_consistent(after),
        is_consistent(creature_deleted(state, id)),
{
    if let Ok(after) = creature_created(state, record) {
        assert forall|other: Seq<char>|
            #![trigger lookup(after.records, other)]
            lookup(after.records, other) is Some implies is_placed(after, other) by {
            assert(other != record.id ==> lookup(state.records, other) == lookup(
                after.records,
                other,
            ));
        }
    }
    if let Ok(after) = creature_updated(state, record) {
        let current = lookup(state.records, record.id)->0;
        assert forall|other: Seq<char>|
            #![trigger lookup(after.records, other)]
            lookup(after.records, other) is Some implies is_placed(after, other) by {
            if other != record.id {
                let r = lookup(state.records, other)->0;
                assert(lookup(state.records, other) == lookup(after.records, other));
                law_lookup_after_drop(state.usernames, current.username, r.username);
            }
        }
    }
    let after = creature_deleted(state, id);
    if let Some(current) = lookup(state.records, id) {
        assert forall|other: Seq<char>|
            #![trigger lookup(after.records, other)]
            lookup(after.records, other) is Some implies is_placed(after, other) by {
            law_lookup_after_drop(state.records, id, other);
            if other != id {
                let r = lookup(state.records, other)->0;
                law_lookup_after_drop(state.usernames, current.username, r.username);
            }
        }
    }
}

/// The link from an owner follows the creature: it stands where the creature has an owner
/// and is no human, and the earlier one is gone once the creature changed hands.
pub proof fn law_owner_links_follow_the_record(
    state: CreaturesState,
    record: Creature,
    after: CreaturesState,
)
    requires
        creature_updated(state, record) == Ok::<CreaturesState, CreatureFault>(after),
        owner_link(lookup(state.records, record.id)->0) matches Some(key) ==> lookup(
            state.links,
            key,
        ) == Some("true"@),
    ensures
        owner_link(record) matches Some(key) ==> lookup(after.links, key) == Some("true"@),
        owner_link(lookup(state.records, record.id)->0) matches Some(key) ==> owner_link(record)
            != Some(key) ==> lookup(after.links, key) is None,
{
    let current = lookup(state.records, record.id)->0;
    if let Some(key) = owner_link(current) {
        law_lookup_after_drop(state.links, key, key);
    }
}

/// A deleted creature is gone, and its owner's link and its user name with it.
pub proof fn law_a_deleted_creature_leaves_nothing(state: CreaturesState, id: Seq<char>)
    requires
        lookup(state.records, id) is Some,
    ensures
        ({
            let current = lookup(state.records, id)->0;
            let after = creature_deleted(state, id);
            &&& lookup(after.records, id) is None
            &&& (owner_link(current) matches Some(key) ==> lookup(after.links, key) is None)
            &&& (current.username.len() > 0 ==> lookup(
                after.usernames,
                current.username,
            ) is None)
        }),
{
    let current = lookup(state.records, id)->0;
    law_lookup_after_drop(state.records, id, id);
    if let Some(key) = owner_link(current) {
        law_lookup_after_drop(state.links, key, key);
    }
    law_lookup_after_drop(state.usernames, current.username, current.username);
}

} // verus!
