//! Workloads: how requests and signals find the instance of an entity that serves them, and
//! what is asked of the machine manager that runs it.
use vstd::prelude::*;

use crate::clock::{is_plain_id, new_plain_id};
use crate::creature::directory::{named, Creatures, CreaturesState};
use crate::finance::ledger::link_of;
use crate::guest_data::field_or_null;
use crate::json::{no_fields, object, Json, Tree};
use crate::outside::{
    base64_bytes, base64_decode, base64_encode, base64_text, base64_url_bytes, base64_url_decode,
    base64_url_encode, base64_url_text, byte_lists, certificates_in, hex_encode, hex_of,
    json_text, json_write, lowercase_of, private_key_in, read_certificates, read_first_key, sha256, sha256_of,
    to_lowercase, to_uppercase, uppercase_of,
};
use crate::program::gateway::{alias_key, route_key, GatewayRoutes, Route, RoutesState};
use crate::store::membership::{is_member, member_key, Stores};
use crate::table::{lookup, Rows};
use crate::text::{
    contains, contains_text, copy_pairs, holds_text, join2, join3, join_range, joined, listed,
    nonempty, pairs, pieces, same, segments, texts, trim, trimmed,
};

verus! {

broadcast use vstd::string::group_string_axioms;

// ---------------------------------------------------------------- runtimes

/// The text that names the runtime of an entity: the entity's type where it has one, else
/// the runtime of its program.
pub open spec fn runtime_text(
    program_runtime: Seq<char>,
    entity: Seq<char>,
    entity_type: Option<Seq<char>>,
) -> Seq<char> {
    match entity_type {
        Some(text) => if entity.len() > 0 && trimmed(text).len() > 0 {
            trimmed(text)
        } else {
            trimmed(program_runtime)
        },
        None => trimmed(program_runtime),
    }
}

/// The text that names the runtime of an entity.
pub fn runtime_source<'a>(
    program_runtime: &'a str,
    entity: &str,
    entity_type: Option<&'a str>,
) -> (r: &'a str)
    ensures
        r@ == runtime_text(
            program_runtime@,
            entity@,
            match entity_type {
                Some(text) => Some(text@),
                None => None,
            },
        ),
{
    if let Some(text) = entity_type {
        let kind = trim(text);
        if !entity.is_empty() && !kind.is_empty() {
            return kind;
        }
    }
    trim(program_runtime)
}

/// The runtime of an entity of a program, in lower case.
pub fn entity_runtime(program_runtime: &str, entity: &str, entity_type: Option<&str>) -> (r: String)
    ensures
        r@ == lowercase_of(
            runtime_text(
                program_runtime@,
                entity@,
                match entity_type {
                    Some(text) => Some(text@),
                    None => None,
                },
            ),
        ),
{
    to_lowercase(runtime_source(program_runtime, entity, entity_type))
}

/// A runtime's name without the space around it, in lower case.
pub fn normalize_runtime(runtime: &str) -> (r: String)
    ensures
        r@ == lowercase_of(trimmed(runtime@)),
{
    to_lowercase(trim(runtime))
}

/// The entity that serves a signal that names none.
pub fn signal_entity(entity: &str) -> (r: String)
    ensures
        r@ == if entity@.len() == 0 {
            "main"@
        } else {
            entity@
        },
{
    if entity.is_empty() {
        "main".to_owned()
    } else {
        entity.to_owned()
    }
}

// ---------------------------------------------------------------- routes

/// What the node knows when it looks for the workload of a request.
pub struct NodeWorkloads {
    pub creatures: Creatures,
    pub routes: GatewayRoutes,
    pub stores: Stores,
}

/// The route that answers a request, and the path that is left for it.
pub struct ResolvedRoute {
    pub creature_id: String,
    pub program_id: String,
    pub entity_id: String,
    pub vm_id: String,
    pub runtime: String,
    pub path: String,
}

/// The route that answers a request, as texts.
pub struct Resolved {
    pub creature_id: Seq<char>,
    pub program_id: Seq<char>,
    pub entity_id: Seq<char>,
    pub vm_id: Seq<char>,
    pub runtime: Seq<char>,
    pub path: Seq<char>,
}

impl View for ResolvedRoute {
    type V = Resolved;

    open spec fn view(&self) -> Resolved {
        Resolved {
            creature_id: self.creature_id@,
            program_id: self.program_id@,
            entity_id: self.entity_id@,
            vm_id: self.vm_id@,
            runtime: self.runtime@,
            path: self.path@,
        }
    }
}

/// The creatures that the first segment of a request may mean, the likeliest first: the one
/// of that user name, the one of that short name, and the one of that id.
pub open spec fn candidates(creatures: CreaturesState, routes: RoutesState, name: Seq<char>) -> Seq<
    Seq<char>,
> {
    let one = match named(creatures, name) {
        Some(id) => seq![id],
        None => Seq::empty(),
    };
    let alias = link_of(routes.aliases, alias_key(name));
    let two = if alias.len() > 0 && !listed(one, alias) {
        one.push(alias)
    } else {
        one
    };
    if listed(two, name) {
        two
    } else {
        two.push(name)
    }
}

/// The path that the first `take` segments make.
pub open spec fn prefix_path(segments: Seq<Seq<char>>, take: int) -> Seq<char> {
    joined(segments.subrange(0, take), "/"@)
}

/// How many segments the longest path of a creature has that begins a request, up to `most`;
/// none where no path does.
pub open spec fn longest(
    routes: Rows<Route>,
    creature: Seq<char>,
    segments: Seq<Seq<char>>,
    most: int,
) -> int
    decreases most,
{
    if most <= 0 {
        0
    } else if lookup(routes, route_key(creature, prefix_path(segments, most))) is Some {
        most
    } else {
        longest(routes, creature, segments, most - 1)
    }
}

/// What a route makes of a request once its path is taken away.
pub open spec fn resolved_by(
    creature: Seq<char>,
    route: Route,
    segments: Seq<Seq<char>>,
    take: int,
) -> Resolved {
    Resolved {
        creature_id: creature,
        program_id: route.program_id,
        entity_id: route.entity_id,
        vm_id: route.pinned_vm_id,
        runtime: route.runtime,
        path: "/"@ + joined(segments.subrange(take, segments.len() as int), "/"@),
    }
}

/// The route of the first creature that has one for a request.
pub open spec fn first_route(
    routes: Rows<Route>,
    creatures: Seq<Seq<char>>,
    segments: Seq<Seq<char>>,
    most: int,
) -> Option<Resolved>
    decreases creatures.len(),
{
    if creatures.len() == 0 {
        None
    } else {
        let take = longest(routes, creatures[0], segments, most);
        if take > 0 {
            Some(
                resolved_by(
                    creatures[0],
                    lookup(routes, route_key(creatures[0], prefix_path(segments, take)))->0,
                    segments,
                    take,
                ),
            )
        } else {
            first_route(routes, creatures.subrange(1, creatures.len() as int), segments, most)
        }
    }
}

/// The smaller of two numbers.
pub open spec fn least(a: int, b: int) -> int {
    if a < b {
        a
    } else {
        b
    }
}

/// The route that answers a request to `path` of whom `username` names. At most
/// `max_segments` leading segments are tried, whatever the path's length.
pub open spec fn http_route(
    creatures: CreaturesState,
    routes: RoutesState,
    username: Seq<char>,
    path: Seq<char>,
    max_segments: int,
) -> Option<Resolved> {
    let name = trimmed(username);
    let parts = nonempty(pieces(path, "/"@));
    if name.len() == 0 || parts.len() == 0 {
        None
    } else {
        first_route(
            routes.routes,
            candidates(creatures, routes, name),
            parts,
            least(parts.len() as int, max_segments),
        )
    }
}

fn candidate_list(creatures: &Creatures, routes: &GatewayRoutes, name: &str) -> (r: Vec<String>)
    ensures
        texts(r@) == candidates(creatures@, routes@, name@),
{
    let mut out: Vec<String> = Vec::new();
    assert(texts(out@) =~= Seq::empty());
    if let Some(id) = creatures.creature_id_by_username(name) {
        let ghost text = id@;
        out.push(id);
        assert(texts(out@) =~= seq![text]);
    }
    if let Some(alias) = routes.alias(name) {
        if !contains_text(&out, alias.as_str()) {
            let ghost before = texts(out@);
            let ghost text = alias@;
            out.push(alias);
            assert(texts(out@) =~= before.push(text));
        }
    }
    if !contains_text(&out, name) {
        let ghost before = texts(out@);
        out.push(name.to_owned());
        assert(texts(out@) =~= before.push(name@));
    }
    out
}

fn longest_path(routes: &GatewayRoutes, creature: &str, parts: &Vec<String>, most: usize) -> (r:
    usize)
    requires
        most <= parts@.len(),
    ensures
        r == longest(routes@.routes, creature@, texts(parts@), most as int),
        r <= most,
        r > 0 ==> lookup(
            routes@.routes,
            route_key(creature@, prefix_path(texts(parts@), r as int)),
        ) is Some,
{
    let mut take: usize = most;
    while take > 0
        invariant
            take <= most <= parts@.len(),
            longest(routes@.routes, creature@, texts(parts@), most as int) == longest(
                routes@.routes,
                creature@,
                texts(parts@),
                take as int,
            ),
        decreases take,
    {
        let prefix = join_range(parts, 0, take, "/");
        if routes.route(creature, prefix.as_str()).is_some() {
            return take;
        }
        take = take - 1;
    }
    0
}

impl NodeWorkloads {
    /// The node's workloads over what the node knows.
    pub fn new(creatures: Creatures, routes: GatewayRoutes, stores: Stores) -> (r: NodeWorkloads)
        ensures
            r.creatures == creatures,
            r.routes == routes,
            r.stores == stores,
    {
        NodeWorkloads { creatures, routes, stores }
    }

    /// The route that answers a request.
    pub fn resolve_http_route(&self, username: &str, path: &str, max_segments: usize) -> (r: Option<
        ResolvedRoute,
    >)
        ensures
            match r {
                Some(route) => http_route(
                    self.creatures@,
                    self.routes@,
                    username@,
                    path@,
                    max_segments as int,
                ) == Some(route@),
                None => http_route(
                    self.creatures@,
                    self.routes@,
                    username@,
                    path@,
                    max_segments as int,
                ) is None,
            },
    {
        let name = trim(username);
        if name.is_empty() {
            return None;
        }
        proof {
            reveal_strlit("/");
        }
        let parts = segments(path, "/");
        if parts.len() == 0 {
            return None;
        }
        let most: usize = if parts.len() < max_segments {
            parts.len()
        } else {
            max_segments
        };
        let list = candidate_list(&self.creatures, &self.routes, name);
        let ghost all = texts(list@);
        let ghost segs = texts(parts@);
        let mut i: usize = 0;
        assert(all.subrange(0, all.len() as int) =~= all);
        while i < list.len()
            invariant
                i <= list@.len(),
                all == texts(list@),
                segs == texts(parts@),
                most <= parts@.len(),
                first_route(self.routes@.routes, all, segs, most as int) == first_route(
                    self.routes@.routes,
                    all.subrange(i as int, all.len() as int),
                    segs,
                    most as int,
                ),
                http_route(
                    self.creatures@,
                    self.routes@,
                    username@,
                    path@,
                    max_segments as int,
                ) == first_route(self.routes@.routes, all, segs, most as int),
            decreases list@.len() - i,
        {
            let ghost rest = all.subrange(i as int, all.len() as int);
            assert(rest[0] == all[i as int]);
            assert(rest.subrange(1, rest.len() as int) =~= all.subrange(i + 1, all.len() as int));
            let creature = list[i].as_str();
            let take = longest_path(&self.routes, creature, &parts, most);
            if take > 0 {
                let prefix = join_range(&parts, 0, take, "/");
                if let Some(route) = self.routes.route(creature, prefix.as_str()) {
                    let left = join_range(&parts, take, parts.len(), "/");
                    return Some(
                        ResolvedRoute {
                            creature_id: creature.to_owned(),
                            program_id: route.program_id,
                            entity_id: route.entity_id,
                            vm_id: route.pinned_vm_id,
                            runtime: route.runtime,
                            path: join2("/", left.as_str()),
                        },
                    );
                }
            }
            i = i + 1;
        }
        None
    }

    /// Whether a machine may run an entity for a store: it must belong to the store.
    pub fn run_vm_entity(&self, machine: &str, store: &str) -> (r: bool)
        ensures
            r == (link_of(self.stores@.links, member_key(machine@, store@)) == "true"@),
    {
        is_member(&self.stores.links, store, machine)
    }
}

/// The route as it is told to the server of a request.
pub open spec fn route_document(route: Resolved) -> Tree {
    no_fields().with("creatureId"@, Tree::Text(route.creature_id)).with(
        "programId"@,
        Tree::Text(route.program_id),
    ).with("entityId"@, Tree::Text(route.entity_id)).with("vmId"@, Tree::Text(route.vm_id)).with(
        "runtime"@,
        Tree::Text(route.runtime),
    ).with("path"@, Tree::Text(route.path))
}

impl ResolvedRoute {
    /// The route as it is told to the server of a request.
    pub fn to_json(&self) -> (r: Json)
        ensures
            r@ == route_document(self@),
    {
        object().with("creatureId", Json::Text(self.creature_id.clone())).with(
            "programId",
            Json::Text(self.program_id.clone()),
        ).with("entityId", Json::Text(self.entity_id.clone())).with(
            "vmId",
            Json::Text(self.vm_id.clone()),
        ).with("runtime", Json::Text(self.runtime.clone())).with(
            "path",
            Json::Text(self.path.clone()),
        )
    }
}

// ---------------------------------------------------------------- requests

/// A request as the machine manager takes it.
pub struct HttpCall {
    pub program_id: String,
    pub entity_id: String,
    pub vm_id: String,
    pub method: String,
    pub path: String,
    pub query: Option<String>,
    pub headers: Json,
    pub body: String,
}

/// A request as the machine manager takes it, as texts.
pub struct Call {
    pub program_id: Seq<char>,
    pub entity_id: Seq<char>,
    pub vm_id: Seq<char>,
    pub method: Seq<char>,
    pub path: Seq<char>,
    pub query: Option<Seq<char>>,
    pub headers: Tree,
    pub body: Seq<char>,
}

impl View for HttpCall {
    type V = Call;

    open spec fn view(&self) -> Call {
        Call {
            program_id: self.program_id@,
            entity_id: self.entity_id@,
            vm_id: self.vm_id@,
            method: self.method@,
            path: self.path@,
            query: match self.query {
                Some(text) => Some(text@),
                None => None,
            },
            headers: self.headers@,
            body: self.body@,
        }
    }
}

/// A trimmed text of a request, or a default where there is none.
pub open spec fn request_text(request: Tree, key: Seq<char>, default: Seq<char>) -> Seq<char> {
    let text = trimmed(request.text_or_empty(key));
    if text.len() == 0 {
        default
    } else {
        text
    }
}

fn text_of_request(request: &Json, key: &str, default: &str) -> (r: String)
    ensures
        r@ == request_text(request@, key@, default@),
{
    let text = trim(request.text_or_empty(key));
    if text.is_empty() {
        default.to_owned()
    } else {
        text.to_owned()
    }
}

/// The fields that hold texts.
pub open spec fn text_fields(fields: Rows<Tree>) -> Tree
    decreases fields.len(),
{
    if fields.len() == 0 {
        no_fields()
    } else {
        let before = text_fields(fields.drop_last());
        match fields.last().1 {
            Tree::Text(text) => before.with(fields.last().0, Tree::Text(text)),
            _ => before,
        }
    }
}

/// The headers of a request: those that hold texts.
pub open spec fn request_headers(request: Tree) -> Tree {
    text_fields(field_or_null(request, "headers"@).fields())
}

fn headers_of(request: &Json) -> (r: Json)
    ensures
        r@ == request_headers(request@),
        r@ is Object,
{
    let mut out = object();
    let headers = match request.field("headers") {
        Some(headers) => headers,
        None => {
            return out;
        },
    };
    let fields = match headers.fields() {
        Some(fields) => fields,
        None => {
            return out;
        },
    };
    let ghost all = crate::json::fields_of(fields@);
    let mut i: usize = 0;
    assert(all.subrange(0, 0) =~= Seq::empty());
    while i < fields.len()
        invariant
            i <= fields@.len(),
            all == crate::json::fields_of(fields@),
            out@ is Object,
            out@ == text_fields(all.subrange(0, i as int)),
        decreases fields@.len() - i,
    {
        let ghost upto = all.subrange(0, i + 1);
        assert(upto.drop_last() =~= all.subrange(0, i as int));
        assert(upto.last() == (fields@[i as int].0@, fields@[i as int].1@));
        if let Json::Text(text) = &fields[i].1 {
            out = out.with(fields[i].0.as_str(), Json::Text(text.clone()));
        }
        i = i + 1;
    }
    assert(all.subrange(0, all.len() as int) =~= all);
    out
}

/// The request as the machine manager takes it; `method` is its method in upper case, and
/// `body` its body encoded for the way.
pub open spec fn http_call(request: Tree, method: Seq<char>, body: Seq<char>) -> Call {
    let query = trimmed(request.text_or_empty("query"@));
    Call {
        program_id: trimmed(request.text_or_empty("programId"@)),
        entity_id: request_text(request, "entityId"@, "main"@),
        vm_id: request_text(request, "vmId"@, "signal"@),
        method: if trimmed(request.text_or_empty("method"@)).len() == 0 {
            "GET"@
        } else {
            method
        },
        path: request_text(request, "path"@, "/"@),
        query: if query.len() == 0 {
            None
        } else {
            Some(query)
        },
        headers: request_headers(request),
        body,
    }
}

/// The request as the machine manager takes it, with its method and body ready.
pub fn wire_call(request: &Json, method: String, body: String) -> (r: HttpCall)
    ensures
        r@ == http_call(request@, method@, body@),
{
    let query = trim(request.text_or_empty("query"));
    HttpCall {
        program_id: trim(request.text_or_empty("programId")).to_owned(),
        entity_id: text_of_request(request, "entityId", "main"),
        vm_id: text_of_request(request, "vmId", "signal"),
        method: if trim(request.text_or_empty("method")).is_empty() {
            "GET".to_owned()
        } else {
            method
        },
        path: text_of_request(request, "path", "/"),
        query: if query.is_empty() {
            None
        } else {
            Some(query.to_owned())
        },
        headers: headers_of(request),
        body,
    }
}

/// The longest body that is encoded anew.
pub open spec fn encodable(body: Seq<u8>) -> bool {
    body.len() <= usize::MAX / 4
}

/// The call that forwards a request with a decoded body.
pub fn forward_decoded(request: &Json, body: &Vec<u8>) -> (r: HttpCall)
    requires
        encodable(body@),
    ensures
        r@ == http_call(
            request@,
            uppercase_of(trimmed(request@.text_or_empty("method"@))),
            base64_url_text(body@),
        ),
{
    let method = to_uppercase(trim(request.text_or_empty("method")));
    let encoded = base64_url_encode(body.as_slice());
    wire_call(request, method, encoded)
}

/// The call that forwards a request to a workload. Nothing is answered for a body so long
/// that its encoding cannot be held.
pub fn forward_http(request: &Json) -> (r: Option<Result<HttpCall, String>>)
    ensures
        match base64_bytes(trimmed(request@.text_or_empty("bodyBase64"@))) {
            Ok(body) => if encodable(body) {
                r matches Some(Ok(call)) && call@ == http_call(
                    request@,
                    uppercase_of(trimmed(request@.text_or_empty("method"@))),
                    base64_url_text(body),
                )
            } else {
                r is None
            },
            Err(_) => r matches Some(Err(e)) && e@ == "the request body is not base64"@,
        },
{
    match base64_decode(trim(request.text_or_empty("bodyBase64"))) {
        Ok(body) => if body.len() <= usize::MAX / 4 {
            Some(Ok(forward_decoded(request, &body)))
        } else {
            None
        },
        Err(_) => Some(Err("the request body is not base64".to_owned())),
    }
}

/// The answer of a workload as it goes back.
pub open spec fn http_answer(status: i64, headers: Tree, body: Seq<char>) -> Tree {
    no_fields().with("ok"@, Tree::Bool(true)).with("status"@, Tree::Whole(status)).with(
        "headers"@,
        headers,
    ).with("bodyBase64"@, Tree::Text(body))
}

/// The answer of a workload whose body was decoded.
pub fn answer_decoded(status: i64, headers: &Json, body: &Vec<u8>) -> (r: Json)
    requires
        encodable(body@),
    ensures
        r@ == http_answer(status, headers@, base64_text(body@)),
{
    object().with("ok", Json::Bool(true)).with("status", Json::Whole(status)).with(
        "headers",
        headers.copy(),
    ).with("bodyBase64", Json::Text(base64_encode(body.as_slice())))
}

/// The answer of a workload. Nothing is answered for a body so long that its encoding cannot
/// be held.
pub fn answer_http(status: i64, headers: &Json, body: &str) -> (r: Option<Result<Json, String>>)
    ensures
        match base64_url_bytes(body@) {
            Some(bytes) => if encodable(bytes) {
                r matches Some(Ok(answer)) && answer@ == http_answer(
                    status,
                    headers@,
                    base64_text(bytes),
                )
            } else {
                r is None
            },
            None => r matches Some(Err(e)) && e@ == "the VMM answered an invalid body"@,
        },
{
    match base64_url_decode(body) {
        Some(bytes) => if bytes.len() <= usize::MAX / 4 {
            Some(Ok(answer_decoded(status, headers, &bytes)))
        } else {
            None
        },
        None => Some(Err("the VMM answered an invalid body".to_owned())),
    }
}

/// A request that goes to an entity as a signal, and what its sender is answered.
pub struct ForwardedSignal {
    pub program_id: String,
    pub entity_id: String,
    pub signal: Json,
    pub answer: Json,
}

/// A text of a request, or a default where there is none.
pub open spec fn text_or(request: Tree, key: Seq<char>, default: Seq<char>) -> Seq<char> {
    match request.text(key) {
        Some(text) => text,
        None => default,
    }
}

fn text_or_default(request: &Json, key: &str, default: &str) -> (r: String)
    ensures
        r@ == text_or(request@, key@, default@),
{
    match request.text(key) {
        Some(text) => text.to_owned(),
        None => default.to_owned(),
    }
}

/// The request as an entity gets it in a signal.
pub open spec fn signalled_request(request: Tree) -> Tree {
    no_fields().with("kind"@, Tree::Text("httpRequest"@)).with(
        "creatureId"@,
        Tree::Text(request.text_or_empty("creatureId"@)),
    ).with("programId"@, Tree::Text(trimmed(request.text_or_empty("programId"@)))).with(
        "entityId"@,
        Tree::Text(trimmed(request.text_or_empty("entityId"@))),
    ).with("method"@, Tree::Text(text_or(request, "method"@, "GET"@))).with(
        "path"@,
        Tree::Text(text_or(request, "path"@, "/"@)),
    ).with("query"@, Tree::Text(request.text_or_empty("query"@))).with(
        "headers"@,
        field_or_null(request, "headers"@),
    ).with("bodyBase64"@, Tree::Text(request.text_or_empty("bodyBase64"@)))
}

/// The body of the response to one whose request went to an entity as a signal.
pub open spec fn accepted(program: Seq<char>, entity: Seq<char>) -> Tree {
    no_fields().with("ok"@, Tree::Bool(true)).with("forwarded"@, Tree::Text("signal"@)).with(
        "programId"@,
        Tree::Text(program),
    ).with("entityId"@, Tree::Text(entity))
}

/// The signal that carries a request to an entity; `data` is the request as it is written.
pub open spec fn request_signal(entity: Seq<char>, data: Seq<char>) -> Tree {
    no_fields().with("action"@, Tree::Text("single"@)).with("entityId"@, Tree::Text(entity)).with(
        "data"@,
        Tree::Text(data),
    )
}

/// The response to one whose request went to an entity as a signal; `body` is the body as it
/// is written.
pub open spec fn signal_response(body: Seq<char>) -> Tree {
    no_fields().with("ok"@, Tree::Bool(true)).with("status"@, Tree::Whole(202)).with(
        "headers"@,
        no_fields().with("content-type"@, Tree::Text("application/json"@)),
    ).with("body"@, Tree::Text(body))
}

fn write_signalled(request: &Json, program: &str, entity: &str) -> (r: Json)
    requires
        program@ == trimmed(request@.text_or_empty("programId"@)),
        entity@ == trimmed(request@.text_or_empty("entityId"@)),
    ensures
        r@ == signalled_request(request@),
{
    let headers: Json = match request.field("headers") {
        Some(headers) => headers.copy(),
        None => Json::Null,
    };
    object().with("kind", Json::Text("httpRequest".to_owned())).with(
        "creatureId",
        Json::Text(request.text_or_empty("creatureId").to_owned()),
    ).with("programId", Json::Text(program.to_owned())).with(
        "entityId",
        Json::Text(entity.to_owned()),
    ).with("method", Json::Text(text_or_default(request, "method", "GET"))).with(
        "path",
        Json::Text(text_or_default(request, "path", "/")),
    ).with("query", Json::Text(request.text_or_empty("query").to_owned())).with(
        "headers",
        headers,
    ).with("bodyBase64", Json::Text(request.text_or_empty("bodyBase64").to_owned()))
}

/// The signal that carries a request to an entity, and the response to its sender, where the
/// request and the response's body have been written.
pub fn signal_written(program: &str, entity: &str, data: String, body: String) -> (r:
    ForwardedSignal)
    ensures
        r.program_id@ == program@,
        r.entity_id@ == entity@,
        r.signal@ == request_signal(entity@, data@),
        r.answer@ == signal_response(body@),
{
    let signal = object().with("action", Json::Text("single".to_owned())).with(
        "entityId",
        Json::Text(entity.to_owned()),
    ).with("data", Json::Text(data));
    let headers = object().with("content-type", Json::Text("application/json".to_owned()));
    let answer = object().with("ok", Json::Bool(true)).with("status", Json::Whole(202)).with(
        "headers",
        headers,
    ).with("body", Json::Text(body));
    ForwardedSignal {
        program_id: program.to_owned(),
        entity_id: entity.to_owned(),
        signal,
        answer,
    }
}

/// Make a signal of a request, for a runtime that serves none.
pub fn forward_as_signal(request: &Json) -> (r: ForwardedSignal)
    ensures
        r.program_id@ == trimmed(request@.text_or_empty("programId"@)),
        r.entity_id@ == trimmed(request@.text_or_empty("entityId"@)),
        r.signal@ == request_signal(r.entity_id@, json_text(signalled_request(request@))),
        r.answer@ == signal_response(json_text(accepted(r.program_id@, r.entity_id@))),
{
    let program = trim(request.text_or_empty("programId"));
    let entity = trim(request.text_or_empty("entityId"));
    let data = json_write(&write_signalled(request, program, entity));
    let body = object().with("ok", Json::Bool(true)).with(
        "forwarded",
        Json::Text("signal".to_owned()),
    ).with("programId", Json::Text(program.to_owned())).with(
        "entityId",
        Json::Text(entity.to_owned()),
    );
    signal_written(program, entity, data, json_write(&body))
}

/// What becomes of a forwarded request.
pub enum Forwarded {
    /// It was answered.
    Answer(Json),
    /// The runtime serves no requests: it goes to the entity as a signal.
    AsSignal,
}

/// What is answered to a request that failed.
pub open spec fn failed(status: i64, error: Seq<char>) -> Tree {
    no_fields().with("ok"@, Tree::Bool(false)).with("status"@, Tree::Whole(status)).with(
        "error"@,
        Tree::Text(error),
    )
}

fn failure(status: i64, error: &str) -> (r: Json)
    ensures
        r@ == failed(status, error@),
{
    object().with("ok", Json::Bool(false)).with("status", Json::Whole(status)).with(
        "error",
        Json::Text(error.to_owned()),
    )
}

/// Decide what becomes of a forwarded request; `outcome` is what the machine manager said
/// of it, where the node has one.
pub fn settle_forward(outcome: Option<Result<Json, String>>) -> (r: Forwarded)
    ensures
        match outcome {
            None => r matches Forwarded::Answer(answer) && answer@ == failed(
                503,
                "this node has no VMM"@,
            ),
            Some(Ok(given)) => r matches Forwarded::Answer(answer) && answer@ == given@,
            Some(Err(e)) => if holds_text(e@, "unsupported"@) {
                r is AsSignal
            } else {
                r matches Forwarded::Answer(answer) && answer@ == failed(502, e@)
            },
        },
{
    match outcome {
        None => Forwarded::Answer(failure(503, "this node has no VMM")),
        Some(Ok(answer)) => Forwarded::Answer(answer),
        Some(Err(e)) => if contains(e.as_str(), "unsupported") {
            Forwarded::AsSignal
        } else {
            Forwarded::Answer(failure(502, e.as_str()))
        },
    }
}

// ---------------------------------------------------------------- launching

/// What an instance may use.
#[derive(Clone, Copy, PartialEq, Eq, Structural, Debug)]
pub struct LaunchResources {
    pub cpu_cores: i64,
    pub ram_mb: i64,
    pub disk_gb: i64,
    pub max_exec_time_seconds: i64,
}

impl Default for LaunchResources {
    fn default() -> (r: Self)
        ensures
            r == (LaunchResources {
                cpu_cores: 1,
                ram_mb: 64,
                disk_gb: 1,
                max_exec_time_seconds: 60,
            }),
    {
        LaunchResources { cpu_cores: 1, ram_mb: 64, disk_gb: 1, max_exec_time_seconds: 60 }
    }
}

/// A number that is at least zero.
pub open spec fn unsigned(value: i64) -> int {
    if value < 0 {
        0
    } else {
        value as int
    }
}

fn unsigned_of(value: i64) -> (r: u64)
    ensures
        r == unsigned(value),
{
    if value < 0 {
        0
    } else {
        value as u64
    }
}

/// What the machine manager is asked to give an instance.
#[derive(Clone, Copy, PartialEq, Eq, Structural, Debug)]
pub struct WorkloadResources {
    pub vcpu_millis: u64,
    pub memory_mib: u64,
    pub disk_mib: u64,
    pub invocation_timeout_millis: u64,
}

/// The larger of two numbers.
pub open spec fn most(a: int, b: int) -> int {
    if a < b {
        b
    } else {
        a
    }
}

/// Whether the machine manager's units can hold what an instance may use.
pub open spec fn is_measurable(r: LaunchResources) -> bool {
    &&& most(unsigned(r.cpu_cores), 1) * 1000 <= u64::MAX
    &&& unsigned(r.disk_gb) * 1024 <= u64::MAX
    &&& unsigned(r.max_exec_time_seconds) * 1000 <= u64::MAX
}

/// What an instance may use, in the machine manager's units: at least one core and one
/// mebibyte.
pub fn workload_resources(resources: LaunchResources) -> (r: WorkloadResources)
    requires
        is_measurable(resources),
    ensures
        r.vcpu_millis == most(unsigned(resources.cpu_cores), 1) * 1000,
        r.memory_mib == most(unsigned(resources.ram_mb), 1),
        r.disk_mib == unsigned(resources.disk_gb) * 1024,
        r.invocation_timeout_millis == unsigned(resources.max_exec_time_seconds) * 1000,
{
    let cores: u64 = unsigned_of(resources.cpu_cores);
    let memory: u64 = unsigned_of(resources.ram_mb);
    WorkloadResources {
        vcpu_millis: if cores < 1 {
            1000
        } else {
            cores * 1000
        },
        memory_mib: if memory < 1 {
            1
        } else {
            memory
        },
        disk_mib: unsigned_of(resources.disk_gb) * 1024,
        invocation_timeout_millis: unsigned_of(resources.max_exec_time_seconds) * 1000,
    }
}

/// The text by which the contents of a file are known.
pub open spec fn digest_of(bytes: Seq<u8>) -> Seq<char> {
    "sha256:"@ + hex_of(sha256_of(bytes))
}

/// The text by which the contents of a file are known.
pub fn content_digest(bytes: &Vec<u8>) -> (r: String)
    ensures
        r@ == digest_of(bytes@),
{
    let digest = sha256(bytes.as_slice());
    join2("sha256:", hex_encode(digest.as_slice()).as_str())
}

/// The name that the id of a workload is made from.
pub fn workload_name(program: &str, entity: &str, vm: &str) -> (r: String)
    ensures
        r@ == program@ + "\0"@ + entity@ + "\0"@ + vm@,
{
    let head = join3(program, "\0", entity);
    join3(head.as_str(), "\0", vm)
}

/// What is launched: the workload and whose it is, the file that it runs and the digest of
/// that file, the resources it gets, the environment it starts in, and where it reaches the
/// node.
pub struct LaunchPlan {
    pub workload: String,
    pub machine_id: String,
    pub program_id: String,
    pub vm_id: String,
    pub name: String,
    pub runtime: String,
    pub entry: String,
    pub store_key: String,
    pub digest: String,
    pub resources: WorkloadResources,
    pub environment: Vec<(String, String)>,
    pub guest_api_url: String,
}

/// Plan the launch of an instance. `store_key` is where the entity's file is kept, and
/// `bytes` are its contents.
pub fn launch(
    program: &str,
    machine: &str,
    entity: &str,
    vm: &str,
    runtime: &str,
    resources: LaunchResources,
    environment: &Vec<(String, String)>,
    guest_api_url: &str,
    store_key: Option<&str>,
    bytes: Option<&Vec<u8>>,
) -> (r: Result<LaunchPlan, String>)
    requires
        is_measurable(resources),
    ensures
        match r {
            Ok(plan) => {
                &&& store_key matches Some(key) && plan.store_key@ == key@
                &&& bytes matches Some(b) && plan.digest@ == digest_of(b@)
                &&& plan.workload@ == program@ + "\0"@ + entity@ + "\0"@ + vm@
                &&& plan.machine_id@ == machine@
                &&& plan.program_id@ == program@
                &&& plan.vm_id@ == vm@
                &&& plan.name@ == entity@ + "/"@ + vm@
                &&& plan.runtime@ == runtime@
                &&& plan.entry@ == entity@
                &&& plan.resources.vcpu_millis == most(unsigned(resources.cpu_cores), 1) * 1000
                &&& plan.resources.memory_mib == most(unsigned(resources.ram_mb), 1)
                &&& plan.resources.disk_mib == unsigned(resources.disk_gb) * 1024
                &&& plan.resources.invocation_timeout_millis == unsigned(
                    resources.max_exec_time_seconds,
                ) * 1000
                &&& pairs(plan.environment@) == pairs(environment@)
                &&& plan.guest_api_url@ == guest_api_url@
            },
            Err(e) => if store_key is None {
                e@ == "the entity has no deployed file"@
            } else {
                bytes is None && e@ == "the entity's file is missing"@
            },
        },
{
    let key = match store_key {
        Some(key) => key,
        None => {
            return Err("the entity has no deployed file".to_owned());
        },
    };
    let contents = match bytes {
        Some(contents) => contents,
        None => {
            return Err("the entity's file is missing".to_owned());
        },
    };
    Ok(
        LaunchPlan {
            workload: workload_name(program, entity, vm),
            machine_id: machine.to_owned(),
            program_id: program.to_owned(),
            vm_id: vm.to_owned(),
            name: join3(entity, "/", vm),
            runtime: runtime.to_owned(),
            entry: entity.to_owned(),
            store_key: key.to_owned(),
            digest: content_digest(contents),
            resources: workload_resources(resources),
            environment: copy_pairs(environment),
            guest_api_url: guest_api_url.to_owned(),
        },
    )
}

/// The file that a workload gets: its own, and only in the version that it was given.
pub open spec fn artifact_served(bytes: Option<Seq<u8>>, digest: Seq<char>) -> Option<Seq<u8>> {
    match bytes {
        Some(contents) => if digest_of(contents) == digest {
            Some(contents)
        } else {
            None
        },
        None => None,
    }
}

/// The file that a workload gets, where its file is `bytes`.
pub fn artifact(bytes: Option<Vec<u8>>, digest: &str) -> (r: Option<Vec<u8>>)
    ensures
        match r {
            Some(served) => artifact_served(
                match bytes {
                    Some(b) => Some(b@),
                    None => None,
                },
                digest@,
            ) == Some(served@),
            None => artifact_served(
                match bytes {
                    Some(b) => Some(b@),
                    None => None,
                },
                digest@,
            ) is None,
        },
{
    match bytes {
        Some(contents) => {
            let found = content_digest(&contents);
            if same(found.as_str(), digest) {
                Some(contents)
            } else {
                None
            }
        },
        None => None,
    }
}

/// What invokes a workload.
#[derive(Clone, Copy, PartialEq, Eq, Structural, Debug)]
pub enum InvocationKind {
    Signal,
    ChainTransactions,
}

/// An invocation of a workload.
pub struct Invocation {
    pub kind: InvocationKind,
    pub key: String,
    pub store_id: Option<String>,
    pub payload: Json,
}

/// The invocation that delivers a packet, and whether its workload must be launched first.
pub fn invoke(recorded: bool, store_id: &str, packet: &Json, chain: bool) -> (r: (bool, Invocation))
    ensures
        r.0 == !recorded,
        r.1.kind == if chain {
            InvocationKind::ChainTransactions
        } else {
            InvocationKind::Signal
        },
        r.1.key@ == "creatures/signal"@,
        match r.1.store_id {
            Some(id) => store_id@.len() > 0 && id@ == store_id@,
            None => store_id@.len() == 0,
        },
        r.1.payload@ == packet@,
{
    let kind = if chain {
        InvocationKind::ChainTransactions
    } else {
        InvocationKind::Signal
    };
    let store: Option<String> = if store_id.is_empty() {
        None
    } else {
        Some(store_id.to_owned())
    };
    (
        !recorded,
        Invocation {
            kind,
            key: "creatures/signal".to_owned(),
            store_id: store,
            payload: packet.copy(),
        },
    )
}

/// Name a new invocation.
pub fn invocation_id() -> (r: String)
    ensures
        exists|id: Seq<char>| #[trigger] is_plain_id(id) && r@ == "invoke-"@ + id,
{
    let id = new_plain_id();
    join2("invoke-", id.as_str())
}

/// Name a new request that is forwarded.
pub fn forward_id() -> (r: String)
    ensures
        exists|id: Seq<char>| #[trigger] is_plain_id(id) && r@ == "http-"@ + id,
{
    let id = new_plain_id();
    join2("http-", id.as_str())
}

// ---------------------------------------------------------------- serving guests

/// The key that guests are served with: the one that was found.
pub open spec fn served_key(found: Result<Option<Seq<u8>>, Seq<char>>) -> Result<
    Seq<u8>,
    Seq<char>,
> {
    match found {
        Ok(Some(key)) => Ok(key),
        Ok(None) => Err("the guest API key secret holds no private key"@),
        Err(e) => Err(e),
    }
}

/// The key that guests are served with, from what was found in the secret.
pub fn key_found(found: Result<Option<Vec<u8>>, String>) -> (r: Result<Vec<u8>, String>)
    ensures
        match r {
            Ok(key) => found matches Ok(Some(one)) && key@ == one@,
            Err(e) => match found {
                Ok(Some(_)) => false,
                Ok(None) => e@ == "the guest API key secret holds no private key"@,
                Err(fault) => e@ == fault@,
            },
        },
{
    match found {
        Ok(Some(key)) => Ok(key),
        Ok(None) => Err("the guest API key secret holds no private key".to_owned()),
        Err(fault) => Err(fault),
    }
}

/// The key that guests are served with, from its secret.
pub fn guest_api_key(pem: &Vec<u8>) -> (r: Result<Vec<u8>, String>)
    ensures
        match r {
            Ok(key) => served_key(private_key_in(pem@)) == Ok::<Seq<u8>, Seq<char>>(key@),
            Err(e) => served_key(private_key_in(pem@)) == Err::<Seq<u8>, Seq<char>>(e@),
        },
{
    key_found(read_first_key(pem.as_slice()))
}

/// The certificates that guests are served with, from the content of their file.
pub fn certificates(pem: &Vec<u8>) -> (r: Result<Vec<Vec<u8>>, String>)
    ensures
        match r {
            Ok(list) => certificates_in(pem@) matches Ok(named) && named == byte_lists(list@),
            Err(e) => certificates_in(pem@) matches Err(named) && named == e@,
        },
{
    read_certificates(pem.as_slice())
}

// ---------------------------------------------------------------- handing over

/// What an operator asks for.
pub enum HandoffCommand {
    Plan { out: String },
    Apply { plan: String, decisions: String },
}

/// The command that an operator's arguments spell.
pub fn handoff_command(arguments: &Vec<String>) -> (r: Result<HandoffCommand, String>)
    ensures
        match r {
            Ok(HandoffCommand::Plan { out }) => arguments@.len() == 2 && arguments@[0]@ == "plan"@
                && out@ == arguments@[1]@,
            Ok(HandoffCommand::Apply { plan, decisions }) => arguments@.len() == 3
                && arguments@[0]@ == "apply"@ && plan@ == arguments@[1]@ && decisions@
                == arguments@[2]@,
            Err(e) => {
                &&& !(arguments@.len() == 2 && arguments@[0]@ == "plan"@)
                &&& !(arguments@.len() == 3 && arguments@[0]@ == "apply"@)
                &&& e@ == "usage: vmm-handoff plan OUT | vmm-handoff apply PLAN DECISIONS"@
            },
        },
{
    if arguments.len() == 2 && same(arguments[0].as_str(), "plan") {
        return Ok(HandoffCommand::Plan { out: arguments[1].clone() });
    }
    if arguments.len() == 3 && same(arguments[0].as_str(), "apply") {
        return Ok(
            HandoffCommand::Apply { plan: arguments[1].clone(), decisions: arguments[2].clone() },
        );
    }
    Err("usage: vmm-handoff plan OUT | vmm-handoff apply PLAN DECISIONS".to_owned())
}

/// An instance that may be handed over, and whether it was decided to adopt it.
pub struct HandoffInstance {
    pub key: String,
    pub runtime: String,
    pub adopt: bool,
}

/// An instance that may be handed over, as texts.
pub struct Handoff {
    pub key: Seq<char>,
    pub runtime: Seq<char>,
    pub adopt: bool,
}

impl View for HandoffInstance {
    type V = Handoff;

    open spec fn view(&self) -> Handoff {
        Handoff { key: self.key@, runtime: self.runtime@, adopt: self.adopt }
    }
}

/// The instances as texts.
pub open spec fn handoffs(list: Seq<HandoffInstance>) -> Seq<Handoff> {
    Seq::new(list.len(), |i: int| list[i]@)
}

/// What is done next with the instances: one is launched, or the records of the decided ones
/// are removed, or it ends with a refusal.
pub enum HandoffStep {
    Launch { index: usize },
    RemoveRecords,
    Refuse { reason: String },
}

/// What is done next with the instances, as texts and numbers.
pub enum NextStep {
    Launch { index: int },
    RemoveRecords,
    Refuse { reason: Seq<char> },
}

impl View for HandoffStep {
    type V = NextStep;

    open spec fn view(&self) -> NextStep {
        match self {
            HandoffStep::Launch { index } => NextStep::Launch { index: *index as int },
            HandoffStep::RemoveRecords => NextStep::RemoveRecords,
            HandoffStep::Refuse { reason } => NextStep::Refuse { reason: reason@ },
        }
    }
}

/// What happened to the instances that are handed over.
pub enum HandoffEvent {
    /// The decisions were found to go with the plan.
    Checked,
    /// An instance was launched.
    Launched { index: usize },
    /// An instance could not be launched.
    Failed { reason: String },
}

/// What is done next with the instances from one on: the first that is adopted is launched; one
/// whose runtime nobody recorded cannot be; and where none is left, the records go.
pub open spec fn step_from(list: Seq<Handoff>, from: int) -> NextStep
    decreases list.len() - from,
{
    if from < 0 || from >= list.len() {
        NextStep::RemoveRecords
    } else if !list[from].adopt {
        step_from(list, from + 1)
    } else if list[from].runtime.len() == 0 {
        NextStep::Refuse {
            reason: list[from].key + " has no recorded runtime; decide stop instead"@,
        }
    } else {
        NextStep::Launch { index: from }
    }
}

/// What is done next with the instances after an event.
pub open spec fn handed_over(list: Seq<Handoff>, event: HandoffEvent) -> NextStep {
    match event {
        HandoffEvent::Checked => step_from(list, 0),
        HandoffEvent::Launched { index } => step_from(list, index + 1),
        HandoffEvent::Failed { reason } => NextStep::Refuse { reason: reason@ },
    }
}

/// Take the handing over of instances one step on.
pub fn hand_over(instances: &Vec<HandoffInstance>, event: HandoffEvent) -> (r: HandoffStep)
    ensures
        r@ == handed_over(handoffs(instances@), event),
{
    let ghost all = handoffs(instances@);
    let ghost goal = handed_over(all, event);
    let from: usize = match event {
        HandoffEvent::Checked => 0,
        HandoffEvent::Launched { index } => {
            if index >= instances.len() {
                return HandoffStep::RemoveRecords;
            }
            index + 1
        },
        HandoffEvent::Failed { reason } => {
            return HandoffStep::Refuse { reason };
        },
    };
    let mut i: usize = from;
    while i < instances.len()
        invariant
            all == handoffs(instances@),
            goal == handed_over(all, event),
            goal == step_from(all, i as int),
        decreases instances@.len() - i,
    {
        assert(all[i as int] == instances@[i as int]@);
        if instances[i].adopt {
            if instances[i].runtime.as_str().is_empty() {
                return HandoffStep::Refuse {
                    reason: join2(
                        instances[i].key.as_str(),
                        " has no recorded runtime; decide stop instead",
                    ),
                };
            }
            return HandoffStep::Launch { index: i };
        }
        i = i + 1;
    }
    HandoffStep::RemoveRecords
}

/// The instances that are launched from one on while every launch succeeds, in their order, and
/// how it ends.
pub open spec fn run_from(list: Seq<Handoff>, from: int) -> (Seq<int>, NextStep)
    decreases list.len() - from,
{
    match step_from(list, from) {
        NextStep::Launch { index } if from <= index < list.len() => {
            let rest = run_from(list, index + 1);
            (seq![index] + rest.0, rest.1)
        },
        end => (Seq::empty(), end),
    }
}

proof fn lemma_step_from(list: Seq<Handoff>, from: int)
    requires
        0 <= from,
    ensures
        match step_from(list, from) {
            NextStep::Launch { index } => from <= index < list.len() && list[index].adopt
                && forall|j: int| from <= j < index ==> !(#[trigger] list[j]).adopt,
            NextStep::RemoveRecords => forall|j: int|
                from <= j < list.len() ==> !(#[trigger] list[j]).adopt,
            NextStep::Refuse { .. } => true,
        },
    decreases list.len() - from,
{
    if from < list.len() && !list[from].adopt {
        lemma_step_from(list, from + 1);
    }
}

/// Records are removed only once every adopted instance was launched, and nothing else was.
pub proof fn law_records_go_after_every_launch(list: Seq<Handoff>, from: int, i: int)
    requires
        run_from(list, from).1 is RemoveRecords,
        0 <= from <= i < list.len(),
    ensures
        run_from(list, from).0.contains(i) == list[i].adopt,
    decreases list.len() - from,
{
    lemma_step_from(list, from);
    match step_from(list, from) {
        NextStep::Launch { index } => {
            let (rest, _) = run_from(list, index + 1);
            let whole = run_from(list, from).0;
            assert(whole =~= seq![index] + rest);
            if i > index {
                law_records_go_after_every_launch(list, index + 1, i);
                if rest.contains(i) {
                    let k = choose|k: int| 0 <= k < rest.len() && rest[k] == i;
                    assert(whole[k + 1] == i);
                }
                if whole.contains(i) {
                    let k = choose|k: int| 0 <= k < whole.len() && whole[k] == i;
                    assert(rest[k - 1] == i);
                }
            } else if i == index {
                assert(whole[0] == i);
            } else {
                lemma_run_goes_on(list, index + 1);
                if whole.contains(i) {
                    let k = choose|k: int| 0 <= k < whole.len() && whole[k] == i;
                    assert(k > 0);
                    assert(rest[k - 1] == i);
                }
            }
        },
        _ => {},
    }
}

proof fn lemma_run_goes_on(list: Seq<Handoff>, from: int)
    requires
        0 <= from,
    ensures
        forall|k: int| 0 <= k < run_from(list, from).0.len() ==> run_from(list, from).0[k] >= from,
    decreases list.len() - from,
{
    lemma_step_from(list, from);
    match step_from(list, from) {
        NextStep::Launch { index } => {
            lemma_run_goes_on(list, index + 1);
            let (rest, _) = run_from(list, index + 1);
            let whole = run_from(list, from).0;
            assert(whole =~= seq![index] + rest);
            assert forall|k: int| 0 <= k < whole.len() implies whole[k] >= from by {
                if k > 0 {
                    assert(whole[k] == rest[k - 1]);
                }
            }
        },
        _ => {},
    }
}

/// Whether a plan may still be carried out: only where it is the one that was approved.
pub fn check_plan(current: &Vec<u8>, approved: &Vec<u8>) -> (r: Result<(), String>)
    ensures
        match r {
            Ok(_) => current@ == approved@,
            Err(e) => current@ != approved@ && e@
                == "the legacy VM handoff plan changed since it was approved; plan again"@,
        },
{
    let mut equal: bool = current.len() == approved.len();
    let mut i: usize = 0;
    while equal && i < current.len()
        invariant
            i <= current@.len(),
            equal ==> current@.len() == approved@.len() && current@.subrange(0, i as int)
                =~= approved@.subrange(0, i as int),
            !equal ==> current@ != approved@,
        decreases current@.len() - i, if equal {
            1int
        } else {
            0
        },
    {
        if current[i] != approved[i] {
            equal = false;
        } else {
            i = i + 1;
        }
    }
    if equal {
        assert(current@.subrange(0, current@.len() as int) =~= current@);
        assert(approved@.subrange(0, approved@.len() as int) =~= approved@);
        Ok(())
    } else {
        Err("the legacy VM handoff plan changed since it was approved; plan again".to_owned())
    }
}

// ---------------------------------------------------------------- laws

proof fn lemma_longest(
    routes: Rows<Route>,
    creature: Seq<char>,
    segments: Seq<Seq<char>>,
    most: int,
)
    ensures
        0 <= longest(routes, creature, segments, most),
        most >= 0 ==> longest(routes, creature, segments, most) <= most,
        forall|n: int|
            longest(routes, creature, segments, most) < n <= most ==> lookup(
                routes,
                route_key(creature, #[trigger] prefix_path(segments, n)),
            ) is None,
        longest(routes, creature, segments, most) > 0 ==> lookup(
            routes,
            route_key(
                creature,
                prefix_path(segments, longest(routes, creature, segments, most)),
            ),
        ) is Some,
    decreases most,
{
    if most > 0 && lookup(routes, route_key(creature, prefix_path(segments, most))) is None {
        lemma_longest(routes, creature, segments, most - 1);
    }
}

/// The longest registered path that begins a request answers it: no longer one of the same
/// creature does.
pub proof fn law_the_longest_path_answers(
    routes: Rows<Route>,
    creature: Seq<char>,
    segments: Seq<Seq<char>>,
    most: int,
    n: int,
)
    requires
        0 < n <= most,
        lookup(routes, route_key(creature, prefix_path(segments, n))) is Some,
    ensures
        longest(routes, creature, segments, most) >= n,
        lookup(
            routes,
            route_key(
                creature,
                prefix_path(segments, longest(routes, creature, segments, most)),
            ),
        ) is Some,
{
    lemma_longest(routes, creature, segments, most);
}

/// A request addressed by the id of a creature reaches a path registered for that creature.
pub proof fn law_a_creature_is_reached_by_its_id(
    creatures: CreaturesState,
    routes: RoutesState,
    creature: Seq<char>,
    segments: Seq<Seq<char>>,
    most: int,
    n: int,
)
    requires
        0 < n <= most,
        named(creatures, creature) is None,
        link_of(routes.aliases, alias_key(creature)).len() == 0,
        lookup(routes.routes, route_key(creature, prefix_path(segments, n))) is Some,
    ensures
        first_route(
            routes.routes,
            candidates(creatures, routes, creature),
            segments,
            most,
        ) matches Some(found) && found.creature_id == creature,
{
    lemma_longest(routes.routes, creature, segments, most);
    let list = candidates(creatures, routes, creature);
    assert(list =~= seq![creature]);
    assert(list[0] == creature);
}

/// A workload gets the file that it was launched with, as long as the file is the same.
pub proof fn law_a_workload_gets_its_own_file(bytes: Seq<u8>)
    ensures
        artifact_served(Some(bytes), digest_of(bytes)) == Some(bytes),
{
}

} // verus!
