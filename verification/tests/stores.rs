use aseman_node::actions::{anon_guard, passes, store_guard};
use aseman_node::creature::directory::CreatureRecord;
use aseman_node::json::Json;
use aseman_node::packets::stores::{GetAccessInput, HistoryInput, SetAccessInput, SignalInput};
use aseman_node::packets::IInput;
use aseman_node::store::membership::{
    is_member, join, leave, member_permissions, members, shown_member_count, stores_of, StoreFault,
    StoreRecord, Stores,
};
use aseman_node::store::permissions::{access_link_key, read_permissions, StorePermissions};
use aseman_node::store::signals::{
    answer_signal, fan_out, get_access, history, history_count, keeps_signal, log_row, set_access, signal,
    signal_refusal, Denied, LogQuery, LogRow, SignalFacts,
};
use aseman_node::table::Table;

fn empty_stores() -> Stores {
    Stores { records: Table::new(), metadata: Table::new(), links: Table::new() }
}

fn link(stores: &Stores, key: &str) -> String {
    stores.links.get(key).cloned().unwrap_or_default()
}

fn creature(id: &str) -> CreatureRecord {
    CreatureRecord {
        id: id.to_string(),
        creature_type: "human".to_string(),
        username: format!("{id}@global"),
        public_key: "pem".to_string(),
        chain_id: String::new(),
        subchain_id: String::new(),
        owner_id: String::new(),
    }
}

fn facts(id: &str) -> SignalFacts {
    SignalFacts { row_id: id.to_string(), time: 1_800_000_000_000, tags: vec!["kind=message".to_string()] }
}

/// A log of signals that keeps its rows in memory.
#[derive(Default)]
struct RecordingLog {
    rows: Vec<(String, LogRow)>,
}

impl RecordingLog {
    fn append(&mut self, row: LogRow) -> String {
        let id = format!("sig-{}", self.rows.len());
        self.rows.push((id.clone(), row));
        id
    }

    fn read(&self, store: &str, query: &LogQuery) -> Vec<&(String, LogRow)> {
        let mut rows: Vec<&(String, LogRow)> = self
            .rows
            .iter()
            .filter(|(_, row)| row.store_id == store)
            .filter(|(_, row)| query.tags_all.iter().all(|tag| row.tags.contains(tag)))
            .collect();
        rows.reverse();
        rows
    }
}

fn message(store: &str, data: &str, temp: bool) -> SignalInput {
    SignalInput {
        store_id: store.to_string(),
        data: data.to_string(),
        tags: vec!["kind=message".to_string()],
        temp,
        ..Default::default()
    }
}

#[test]
fn store_actions_are_guarded_by_identity_and_membership() {
    let g = store_guard();
    assert!(g.is_user, "an anonymous caller must never reach a store action");
    assert!(g.is_in_store, "membership is checked before the body runs");
    let mut links = Table::new();
    assert!(!passes(g, &links, "", "s1"));
    assert!(!passes(g, &links, "alice", "s1"));
    join(&mut links, "s1", "alice", StorePermissions::member());
    assert!(passes(g, &links, "alice", "s1"));
    assert!(!passes(g, &links, "alice", "s2"));
    assert!(passes(anon_guard(), &links, "", ""));
}

#[test]
fn inputs_carry_their_federation_origin_and_store() {
    let signal = SignalInput {
        store_id: "7@peer".into(),
        origin: "peer".into(),
        ..Default::default()
    };
    assert_eq!(signal.get_store_id(), "7@peer");
    assert_eq!(signal.origin(), "peer", "a foreign origin routes the action to that node");

    let history = HistoryInput { store_id: "7@peer".into(), ..Default::default() };
    assert_eq!(history.get_store_id(), "7@peer");
    assert_eq!(history.origin(), "", "no origin means this node serves it");
}

#[test]
fn history_defaults_to_one_page() {
    let page: i64 = 50;
    let input = HistoryInput::default();
    let count = history_count(input.count, page);
    assert_eq!(count, page);
    assert_eq!(history_count(3, page), 3);
    assert_eq!(history_count(-1, page), page);
}

#[test]
fn store_use_cases_keep_legacy_encodings_through_the_adapter() {
    let mut stores = empty_stores();
    stores.records.put(
        "s1",
        StoreRecord { persistent_history: true, member_count: 1, ..StoreRecord::empty("s1") },
    );
    stores
        .links
        .put(&access_link_key("s1", "alice"), StorePermissions::owner().encode());

    let mut log = RecordingLog::default();
    let hello = message("s1", "hello", false);
    let tags = vec!["kind=message".to_string()];
    let row = log_row(&stores, "alice", &hello, &tags, 1_800_000_000_000).unwrap().unwrap();
    let id = log.append(row);
    let outcome = signal(&mut stores, &creature("alice"), &hello, &facts(&id)).unwrap();
    assert!(outcome.persisted);
    assert_eq!(outcome.signal_id, "sig-0");
    assert_eq!(stores.store("s1").unwrap().signal_count, 1);

    let query = history(
        &stores,
        "alice",
        &HistoryInput { store_id: "s1".into(), ..Default::default() },
        50,
    )
    .unwrap();
    let history = log.read("s1", &query);
    assert_eq!(history.len(), 1);
    assert_eq!(history[0].0, "sig-0");
    assert_eq!(history[0].1.sender_id, "alice");
    assert_eq!(history[0].1.data, "hello");
    assert_eq!(history[0].1.tags, tags);
    assert_eq!(history[0].1.time, 1_800_000_000_000);

    let given = set_access(
        &mut stores,
        "alice",
        &SetAccessInput {
            store_id: "s1".into(),
            member_id: "bob".into(),
            permissions: vec!["signal".to_string(), "read".to_string()],
            ..Default::default()
        },
    )
    .unwrap();
    assert_eq!(given, StorePermissions::member());
    assert_eq!(link(&stores, &access_link_key("s1", "bob")), "read,signal");
    let (member, perms) = get_access(
        &stores,
        "bob",
        &GetAccessInput { store_id: "s1".into(), ..Default::default() },
    )
    .unwrap();
    assert_eq!((member.as_str(), perms), ("bob", StorePermissions::member()));
    let denied =
        signal(&mut stores, &creature("mallory"), &message("s1", "x", false), &facts("sig-1"));
    assert!(matches!(denied, Err(Denied::Signal)));
    let unlogged = log_row(&stores, "mallory", &message("s1", "x", false), &vec![], 1);
    assert!(matches!(unlogged, Err(Denied::Signal)));
    let passing = log_row(&stores, "alice", &message("s1", "x", true), &vec![], 1);
    assert!(matches!(passing, Ok(None)));
    assert_eq!(signal_refusal(), "not allowed to signal in this store");
}

#[test]
fn removing_a_member_everywhere_fixes_the_empty_legacy_walk() {
    let mut stores = empty_stores();
    for id in ["s1", "s2"] {
        stores.records.put(id, StoreRecord::empty(id));
    }
    let member = StorePermissions::member();
    join(&mut stores.links, "s1", "alice", member);
    join(&mut stores.links, "s1", "bob", member);
    join(&mut stores.links, "s2", "alice", member);
    join(&mut stores.links, "gone", "alice", member);

    let ids =
        |list: Vec<StoreRecord>| list.into_iter().map(|s| s.id).collect::<Vec<_>>();
    assert_eq!(ids(stores.member_stores("alice", 50)), ["s1", "s2"]);
    assert!(stores.member_stores("alice", 1).is_empty());

    assert_eq!(stores.remove_member_everywhere("alice"), ["s2"]);
    assert!(stores_of(&stores.links, "alice").is_empty());
    assert!(is_member(&stores.links, "s1", "bob"));
    assert!(stores.store("s1").is_some());
    assert!(stores.store("s2").is_none());
}

#[test]
fn legacy_stores_pass_the_store_conformance_suite() {
    let mut stores = empty_stores();
    for id in ["s-1@conformance", "s-2@conformance"] {
        assert_eq!(stores.create_store(&StoreRecord::empty(id), "1@global"), Ok(()));
    }
    assert_eq!(
        stores.create_store(&StoreRecord::empty("s-1@conformance"), "2@global"),
        Err(StoreFault::Conflict)
    );
    stores.delete_store("s-2@conformance");
    assert_eq!(link(&stores, "creatorof::1@global::s-1@conformance"), "true");
    assert_eq!(link(&stores, "creatorof::1@global::s-2@conformance"), "");
    assert_eq!(
        stores.update_store(&StoreRecord::empty("s-2@conformance")),
        Err(StoreFault::NotFound)
    );
    let changed = StoreRecord { tag: "t".to_string(), ..StoreRecord::empty("s-1@conformance") };
    assert_eq!(stores.update_store(&changed), Ok(()));
    assert_eq!(stores.store("s-1@conformance").unwrap().tag, "t");
    assert_eq!(stores.stores().len(), 1);
    assert_eq!(stores.merge_store_metadata("s-1@conformance", "{\"title\":\"T\"}"), Ok(()));
    assert_eq!(stores.merge_store_metadata("s-1@conformance", "{\"avatar\":\"A\"}"), Ok(()));
    let metadata = stores.metadata.get("StoreMeta::s-1@conformance").unwrap();
    assert_eq!((metadata.text("title"), metadata.text("avatar")), (Some("T"), Some("A")));
    assert_eq!(
        stores.merge_store_metadata("s-1@conformance", "nothing"),
        Err("metadata must be a JSON object".to_string())
    );
}

#[test]
fn members_join_and_leave() {
    let mut stores = empty_stores();
    join(&mut stores.links, "s1", "bob", StorePermissions::member());
    join(&mut stores.links, "s1", "alice", StorePermissions::owner());
    assert_eq!(members(&stores.links, "s1"), ["alice", "bob"]);
    let shown = member_permissions(&stores.links, "s1");
    assert_eq!(shown[0].0, "alice");
    assert!(shown[0].1.manage);
    assert!(!shown[1].1.manage);
    assert_eq!(fan_out(&stores, "s1", "alice"), ["bob"]);
    assert_eq!(fan_out(&stores, "s1", "mallory"), ["alice", "bob"]);
    assert!(fan_out(&stores, "s2", "alice").is_empty());
    leave(&mut stores.links, "s1", "alice");
    assert!(!is_member(&stores.links, "s1", "alice"));
    assert!(!read_permissions(&stores.links, "s1", "alice").read);
}

#[test]
fn permissions_read_back_and_a_missing_grant_permits_nothing() {
    for read in [false, true] {
        for signal in [false, true] {
            for manage in [false, true] {
                let p = StorePermissions { read, signal, manage };
                assert_eq!(StorePermissions::parse(&p.encode()), p);
            }
        }
    }
    assert_eq!(
        StorePermissions::parse(""),
        StorePermissions { read: false, signal: false, manage: false }
    );
    assert_eq!(StorePermissions::owner().encode(), "read,signal,manage");
}

#[test]
fn passing_signals_leave_no_trace() {
    let mut stores = empty_stores();
    stores
        .records
        .put("s1", StoreRecord { persistent_history: true, ..StoreRecord::empty("s1") });
    join(&mut stores.links, "s1", "alice", StorePermissions::member());
    let input = message("s1", "typing", true);
    assert_eq!(keeps_signal(&stores, "alice", &input), Ok(false));
    let sent = signal(&mut stores, &creature("alice"), &input, &facts("row")).unwrap();
    assert!(!sent.persisted);
    assert_eq!(sent.signal_id, "");
    assert_eq!(sent.action, "broadcast");
    assert_eq!(sent.sender_balance, 0);
    assert_eq!(stores.store("s1").unwrap().signal_count, 0);
    match answer_signal(&sent) {
        Json::Object(fields) => {
            assert_eq!(fields[0].0, "passed");
            assert!(matches!(fields[1].1, Json::Bool(false)));
        }
        _ => panic!("an answer is an object"),
    }
}

#[test]
fn access_needs_the_permission_to_manage() {
    let mut stores = empty_stores();
    join(&mut stores.links, "s1", "bob", StorePermissions::member());
    let change = SetAccessInput {
        store_id: "s1".into(),
        member_id: "carol".into(),
        permissions: vec!["read".to_string()],
        ..Default::default()
    };
    assert_eq!(set_access(&mut stores, "bob", &change), Err(Denied::Manage));
    let other = GetAccessInput {
        store_id: "s1".into(),
        member_id: "carol".into(),
        ..Default::default()
    };
    assert!(matches!(get_access(&stores, "bob", &other), Err(Denied::Manage)));
    let unread = history(
        &stores,
        "carol",
        &HistoryInput { store_id: "s1".into(), ..Default::default() },
        50,
    );
    assert!(matches!(unread, Err(Denied::Read)));
}

#[test]
fn metadata_is_laid_over_what_was_there() {
    let mut stores = empty_stores();
    let one = Json::Object(vec![
        ("title".to_string(), Json::Text("a".to_string())),
        ("nested".to_string(), Json::Object(vec![("x".to_string(), Json::Whole(1))])),
    ]);
    let two = Json::Object(vec![
        ("nested".to_string(), Json::Object(vec![("y".to_string(), Json::Whole(2))])),
    ]);
    stores.merge_metadata_value("s1", &one);
    stores.merge_metadata_value("s1", &two);
    stores.merge_metadata_value("s1", &Json::Whole(3));
    let kept = stores.metadata.get("StoreMeta::s1").unwrap();
    assert_eq!(kept.text("title"), Some("a"));
    let nested = kept.field("nested").unwrap();
    assert_eq!(nested.whole("x"), Some(1));
    assert_eq!(nested.whole("y"), Some(2));
}

#[test]
fn member_counts_are_shown_in_thirty_two_bits() {
    assert_eq!(shown_member_count(5), 5);
    assert_eq!(shown_member_count(1 << 40), i32::MAX);
}
