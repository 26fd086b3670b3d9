//! What the node tells of itself over HTTP.
use vstd::prelude::*;
use vstd::slice::slice_subrange;

use crate::json::{no_fields, object, read_as, Json, Tree};
use crate::outside::{json_read_bytes, parsed_json_bytes, read_rfc3339, rfc3339_millis};
use crate::storage_http::{answer_head, write_head};
use crate::text::{
    contains, cut, has_prefix, has_suffix, holds_text, join2, join3, join4, same, split_once,
    strip_prefix, strip_suffix, texts, trim, trimmed, words, words_of,
};

verus! {

broadcast use vstd::string::group_string_axioms;

/// Where the figures are kept: at the configured place, or under the storage root.
pub open spec fn database_at(configured: Seq<char>, root: Seq<char>) -> Seq<char> {
    let base = if trimmed(root).len() == 0 {
        "."@
    } else {
        root
    };
    if trimmed(configured).len() > 0 {
        configured
    } else if has_suffix(base, "/"@) {
        base + "telemetry-rocks"@
    } else {
        base + "/"@ + "telemetry-rocks"@
    }
}

/// Where the figures are kept.
pub fn database_path(configured: &str, root: &str) -> (r: String)
    ensures
        r@ == database_at(configured@, root@),
{
    if !trim(configured).is_empty() {
        return configured.to_owned();
    }
    let base: &str = if trim(root).is_empty() {
        "."
    } else {
        root
    };
    if strip_suffix(base, "/").is_some() {
        join2(base, "telemetry-rocks")
    } else {
        join3(base, "/", "telemetry-rocks")
    }
}

/// What a request asks for.
#[derive(Clone, Copy, PartialEq, Eq, Structural, Debug)]
pub enum TelemetryRoute {
    Health,
    Snapshot,
    NotFound,
}

/// What the first line of a request asks for; nothing where it is no request.
pub open spec fn telemetry_route(line: Seq<char>) -> Option<TelemetryRoute> {
    let parts = words_of(line);
    if parts.len() < 2 {
        None
    } else if parts[1] == "/telemetry/health"@ {
        Some(TelemetryRoute::Health)
    } else if parts[1] == "/telemetry/snapshot"@ {
        Some(TelemetryRoute::Snapshot)
    } else {
        Some(TelemetryRoute::NotFound)
    }
}

/// Decide what a request asks for.
pub fn route(line: &str) -> (r: Option<TelemetryRoute>)
    ensures
        r == telemetry_route(line@),
{
    let parts = words(line);
    assert(texts(parts@).len() == parts@.len());
    if parts.len() < 2 {
        return None;
    }
    assert(texts(parts@)[1] == parts@[1]@);
    if same(parts[1].as_str(), "/telemetry/health") {
        Some(TelemetryRoute::Health)
    } else if same(parts[1].as_str(), "/telemetry/snapshot") {
        Some(TelemetryRoute::Snapshot)
    } else {
        Some(TelemetryRoute::NotFound)
    }
}

/// The head of an answer.
pub fn response_head(status: u16, length: usize) -> (r: String)
    ensures
        r@ == answer_head(
            status as int,
            "OK"@,
            "application/json"@,
            length as int,
            Seq::empty(),
        ),
{
    proof {
        reveal_strlit("");
        assert(""@ =~= Seq::<char>::empty());
    }
    write_head(status, "OK", "application/json", length, "")
}

/// Whether figures are told again that were taken at a moment: they are for two seconds, and
/// not where it is unknown when they were taken.
pub open spec fn still_fresh(taken: Option<i64>, now: i64) -> bool {
    match taken {
        Some(t) => now - t < 2000,
        None => false,
    }
}

/// Whether figures are told again that were taken at a moment.
pub fn is_fresh(taken: Option<i64>, now: i64) -> (r: bool)
    ensures
        r == still_fresh(taken, now),
{
    match taken {
        Some(t) => now as i128 - (t as i128) < 2000,
        None => false,
    }
}

/// Whether figures are told again that bear a time stamp.
pub fn is_cached_fresh(timestamp: &str, now: i64) -> (r: bool)
    ensures
        r == (match rfc3339_millis(timestamp@) {
            Some(t) => now - t < 2000,
            None => false,
        }),
{
    is_fresh(read_rfc3339(timestamp), now)
}

// ---------------------------------------------------------------- snapshots

/// What the node tells of itself.
pub struct Snapshot {
    pub timestamp: String,
    pub uptime_sec: i64,
    pub node: Json,
    pub chain: Json,
    pub federation: Json,
    pub clients: Json,
    pub protocol_traffic: Json,
    pub vms: Json,
    pub machines: Json,
    pub costs: Json,
    pub transactions: Json,
    pub packets: Json,
    pub messages: Json,
    pub creatures: Json,
    pub validators: Json,
    pub staking: Json,
    pub election: Json,
    pub resources: Json,
}

/// What the telemetry service knows of its node.
pub struct TelemetryServer {
    pub origin: String,
    pub chain_port: u16,
    pub federation_port: u16,
    pub client_tcp_port: u16,
    pub client_ws_port: u16,
    pub entity_port: u16,
    pub vm_port: u16,
    pub telemetry_port: u16,
    pub storage_root: String,
}

/// A port as a document.
pub open spec fn port_number(port: u16) -> Tree {
    Tree::Whole(port as i64)
}

/// Nothing at all, in a list.
pub open spec fn no_items() -> Tree {
    Tree::Array(Seq::empty())
}

fn nothing() -> (r: Json)
    ensures
        r@ == no_items(),
{
    let items: Vec<Json> = Vec::new();
    proof {
        crate::json::lemma_array(items);
        assert(crate::json::items_of(items@) =~= Seq::<Tree>::empty());
    }
    Json::Array(items)
}

/// A counter of something that is listed.
pub open spec fn counted(list: Seq<char>) -> Tree {
    no_fields().with(list, no_items()).with("count"@, Tree::Whole(0))
}

fn counter(list: &str) -> (r: Json)
    ensures
        r@ == counted(list@),
{
    object().with(list, nothing()).with("count", Json::Whole(0))
}

impl TelemetryServer {
    /// Put together what the node tells of itself; what others told is given.
    pub fn collect(
        &self,
        now: &str,
        uptime_sec: i64,
        chain_stats: &Json,
        peers: &Json,
        resources: &Json,
    ) -> (r: Snapshot)
        ensures
            r.timestamp@ == now@,
            r.uptime_sec == uptime_sec,
            r.node@ == no_fields().with("origin"@, Tree::Text(self.origin@)).with(
                "telemetry_port"@,
                port_number(self.telemetry_port),
            ).with("entity_port"@, port_number(self.entity_port)).with(
                "vm_port"@,
                port_number(self.vm_port),
            ),
            r.chain@ == no_fields().with("port"@, port_number(self.chain_port)).with(
                "stats"@,
                chain_stats@,
            ).with("peers"@, peers@),
            r.federation@ == no_fields().with("port"@, port_number(self.federation_port)).with(
                "status"@,
                Tree::Text("running"@),
            ),
            r.clients@ == no_fields().with("tcp_port"@, port_number(self.client_tcp_port)).with(
                "ws_port"@,
                port_number(self.client_ws_port),
            ),
            r.protocol_traffic@ == no_fields().with("rx_bytes"@, Tree::Whole(0)).with(
                "tx_bytes"@,
                Tree::Whole(0),
            ).with("io_details"@, Tree::Text("attach protocol counters provider"@)),
            r.vms@ == no_fields().with("running_count"@, Tree::Whole(0)).with(
                "details"@,
                no_items(),
            ).with(
                "traffic"@,
                no_fields().with("rx"@, Tree::Whole(0)).with("tx"@, Tree::Whole(0)),
            ),
            r.machines@ == no_fields().with("running_count"@, Tree::Whole(0)).with(
                "details"@,
                no_items(),
            ),
            r.costs@ == no_fields().with("total_execution_cost"@, Tree::Whole(0)).with(
                "recent_task_costs"@,
                no_items(),
            ),
            r.transactions@ == counted("recent_processed"@),
            r.packets@ == counted("recent"@),
            r.messages@ == counted("recent_global_chain"@),
            r.creatures@ == no_fields().with("onchain_realtime"@, no_items()),
            r.validators@ == counted("details"@),
            r.staking@ == no_fields().with("total_staked"@, Tree::Whole(0)).with(
                "stats"@,
                no_fields(),
            ),
            r.election@ == no_fields().with("round"@, Tree::Whole(0)).with(
                "status"@,
                Tree::Text("unknown"@),
            ),
            r.resources@ == resources@,
    {
        Snapshot {
            timestamp: now.to_owned(),
            uptime_sec,
            node: object().with("origin", Json::Text(self.origin.clone())).with(
                "telemetry_port",
                Json::Whole(self.telemetry_port as i64),
            ).with("entity_port", Json::Whole(self.entity_port as i64)).with(
                "vm_port",
                Json::Whole(self.vm_port as i64),
            ),
            chain: object().with("port", Json::Whole(self.chain_port as i64)).with(
                "stats",
                chain_stats.copy(),
            ).with("peers", peers.copy()),
            federation: object().with("port", Json::Whole(self.federation_port as i64)).with(
                "status",
                Json::Text("running".to_owned()),
            ),
            clients: object().with("tcp_port", Json::Whole(self.client_tcp_port as i64)).with(
                "ws_port",
                Json::Whole(self.client_ws_port as i64),
            ),
            protocol_traffic: object().with("rx_bytes", Json::Whole(0)).with(
                "tx_bytes",
                Json::Whole(0),
            ).with("io_details", Json::Text("attach protocol counters provider".to_owned())),
            vms: object().with("running_count", Json::Whole(0)).with("details", nothing()).with(
                "traffic",
                object().with("rx", Json::Whole(0)).with("tx", Json::Whole(0)),
            ),
            machines: object().with("running_count", Json::Whole(0)).with("details", nothing()),
            costs: object().with("total_execution_cost", Json::Whole(0)).with(
                "recent_task_costs",
                nothing(),
            ),
            transactions: counter("recent_processed"),
            packets: counter("recent"),
            messages: counter("recent_global_chain"),
            creatures: object().with("onchain_realtime", nothing()),
            validators: counter("details"),
            staking: object().with("total_staked", Json::Whole(0)).with("stats", object()),
            election: object().with("round", Json::Whole(0)).with(
                "status",
                Json::Text("unknown".to_owned()),
            ),
            resources: resources.copy(),
        }
    }
}

// ---------------------------------------------------------------- fetching

/// Whom a URL addresses, and the path that it asks for.
pub open spec fn fetch_target(url: Seq<char>) -> Result<(Seq<char>, Seq<char>), Seq<char>> {
    if holds_text(url, "127.0.0.1:/"@) || trimmed(url).len() == 0 {
        Err("invalid url"@)
    } else if !has_prefix(url, "http://"@) {
        Err("non-http url"@)
    } else {
        let rest = url.subrange("http://"@.len() as int, url.len() as int);
        match cut(rest, "/"@) {
            Some((authority, path)) => Ok((authority, "/"@ + path)),
            None => Ok((rest, "/"@)),
        }
    }
}

/// Read whom a URL addresses, and the path that it asks for.
pub fn fetch_json(url: &str) -> (r: Result<(String, String), String>)
    ensures
        match r {
            Ok((authority, path)) => fetch_target(url@) == Ok::<(Seq<char>, Seq<char>), Seq<char>>(
                (authority@, path@),
            ),
            Err(e) => fetch_target(url@) == Err::<(Seq<char>, Seq<char>), Seq<char>>(e@),
        },
{
    if contains(url, "127.0.0.1:/") || trim(url).is_empty() {
        return Err("invalid url".to_owned());
    }
    match strip_prefix(url, "http://") {
        None => Err("non-http url".to_owned()),
        Some(rest) => match split_once(rest, "/") {
            Some((authority, path)) => Ok((authority.to_owned(), join2("/", path))),
            None => Ok((rest.to_owned(), "/".to_owned())),
        },
    }
}

/// The request that fetches a path.
pub fn fetch_request(authority: &str, path: &str) -> (r: String)
    ensures
        r@ == "GET "@ + path@ + " HTTP/1.0\r\nHost: "@ + authority@
            + "\r\nConnection: close\r\n\r\n"@,
{
    let head = join4("GET ", path, " HTTP/1.0\r\nHost: ", authority);
    join2(head.as_str(), "\r\nConnection: close\r\n\r\n")
}

/// Whether the end of the headers stands at a place.
pub open spec fn headers_end_at(bytes: Seq<u8>, i: int) -> bool {
    &&& 0 <= i
    &&& i + 4 <= bytes.len()
    &&& bytes[i] == 13
    &&& bytes[i + 1] == 10
    &&& bytes[i + 2] == 13
    &&& bytes[i + 3] == 10
}

/// What follows the headers of an answer: the whole of it where it has none.
pub fn response_body(bytes: &Vec<u8>) -> (r: usize)
    ensures
        r <= bytes@.len(),
        (forall|i: int| !headers_end_at(bytes@, i)) ==> r == 0,
        (exists|i: int| headers_end_at(bytes@, i)) ==> headers_end_at(bytes@, r - 4) && (forall|
            i: int,
        |
            i < r - 4 ==> !#[trigger] headers_end_at(bytes@, i)),
{
    let n: usize = bytes.len();
    let mut i: usize = 0;
    while i < n && n - i >= 4
        invariant
            i <= n == bytes@.len(),
            forall|j: int| j < i ==> !#[trigger] headers_end_at(bytes@, j),
        decreases n - i,
    {
        if bytes[i] == 13 && bytes[i + 1] == 10 && bytes[i + 2] == 13 && bytes[i + 3] == 10 {
            assert(headers_end_at(bytes@, i as int));
            return i + 4;
        }
        assert(!headers_end_at(bytes@, i as int));
        i = i + 1;
    }
    0
}

/// What follows the headers of an answer, as bytes: the whole of it where it has none.
pub open spec fn answer_body(bytes: Seq<u8>) -> Seq<u8> {
    if exists|i: int| headers_end_at(bytes, i) {
        let first = choose|i: int|
            headers_end_at(bytes, i) && forall|j: int| j < i ==> !headers_end_at(bytes, j);
        bytes.subrange(first + 4, bytes.len() as int)
    } else {
        bytes
    }
}

/// The document that an answer holds, or what is wrong with it.
pub open spec fn fetched(bytes: Seq<u8>) -> Result<Tree, Seq<char>> {
    match parsed_json_bytes(answer_body(bytes)) {
        Ok(document) => Ok(document),
        Err(fault) => Err("decode: "@ + fault),
    }
}

/// Read the document that an answer holds.
pub fn read_fetched(bytes: &Vec<u8>) -> (r: Result<Json, String>)
    ensures
        read_as(r) == fetched(bytes@),
{
    let start: usize = response_body(bytes);
    proof {
        if exists|i: int| headers_end_at(bytes@, i) {
            let first = choose|i: int|
                headers_end_at(bytes@, i) && forall|j: int| j < i ==> !headers_end_at(bytes@, j);
            assert(headers_end_at(bytes@, start - 4));
            assert(headers_end_at(bytes@, first) && forall|j: int|
                j < first ==> !headers_end_at(bytes@, j));
            assert(first == start - 4);
        } else {
            assert(forall|i: int| !headers_end_at(bytes@, i));
            assert(bytes@.subrange(0, bytes@.len() as int) =~= bytes@);
        }
    }
    let body = slice_subrange(bytes.as_slice(), start, bytes.len());
    match json_read_bytes(body) {
        Ok(document) => Ok(document),
        Err(fault) => Err(join2("decode: ", fault.as_str())),
    }
}

} // verus!
