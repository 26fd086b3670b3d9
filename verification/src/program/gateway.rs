//! Paths of the HTTP gateway: which entity of which program answers them.
use vstd::prelude::*;

use crate::finance::ledger::link_of;
use crate::json::{no_fields, object, Json, Tree};
use crate::outside::{base64_encode, base64_text};
use crate::table::{
    dropped, law_lookup_after_drop, law_lookup_after_store, lookup, stored, Rows, Table,
};
use crate::text::{cut, first_from, join2, join3, join4, lemma_first_from, occurs_at, same, split_once};

verus! {

broadcast use {vstd::string::group_string_axioms, law_lookup_after_store};

/// A path of a creature, and the entity that answers it; a pinned instance is the only one
/// of the entity that does.
pub struct GatewayRoute {
    pub creature_id: String,
    pub path: String,
    pub program_id: String,
    pub entity_id: String,
    pub runtime: String,
    pub pinned_vm_id: String,
}

/// A route, as texts.
pub struct Route {
    pub creature_id: Seq<char>,
    pub path: Seq<char>,
    pub program_id: Seq<char>,
    pub entity_id: Seq<char>,
    pub runtime: Seq<char>,
    pub pinned_vm_id: Seq<char>,
}

impl View for GatewayRoute {
    type V = Route;

    open spec fn view(&self) -> Route {
        Route {
            creature_id: self.creature_id@,
            path: self.path@,
            program_id: self.program_id@,
            entity_id: self.entity_id@,
            runtime: self.runtime@,
            pinned_vm_id: self.pinned_vm_id@,
        }
    }
}

impl GatewayRoute {
    /// A copy of the route.
    pub fn copy(&self) -> (r: GatewayRoute)
        ensures
            r@ == self@,
    {
        GatewayRoute {
            creature_id: self.creature_id.clone(),
            path: self.path.clone(),
            program_id: self.program_id.clone(),
            entity_id: self.entity_id.clone(),
            runtime: self.runtime.clone(),
            pinned_vm_id: self.pinned_vm_id.clone(),
        }
    }
}

/// The routes of the gateway: by creature and path, by the entity that answers, and the
/// short names of creatures.
pub struct GatewayRoutes {
    pub routes: Table<GatewayRoute>,
    pub by_entity: Table<String>,
    pub aliases: Table<String>,
}

/// The routes of the gateway, as texts.
pub struct RoutesState {
    pub routes: Rows<Route>,
    pub by_entity: Rows<Seq<char>>,
    pub aliases: Rows<Seq<char>>,
}

impl View for GatewayRoutes {
    type V = RoutesState;

    open spec fn view(&self) -> RoutesState {
        RoutesState {
            routes: self.routes@,
            by_entity: self.by_entity@,
            aliases: self.aliases@,
        }
    }
}

/// The key of a route.
pub open spec fn route_key(creature: Seq<char>, path: Seq<char>) -> Seq<char> {
    "vmHttpRoute::"@ + creature + "::"@ + path
}

/// The key under which an entity finds its route.
pub open spec fn entity_route_key(program: Seq<char>, entity: Seq<char>) -> Seq<char> {
    "vmHttpRouteFor::"@ + program + "::"@ + entity
}

/// The key of a short name.
pub open spec fn alias_key(local_part: Seq<char>) -> Seq<char> {
    "vmHttpRouteUser::"@ + local_part
}

/// The creature and the path of an entity's route.
pub open spec fn route_of(state: RoutesState, program: Seq<char>, entity: Seq<char>) -> Option<
    (Seq<char>, Seq<char>),
> {
    cut(link_of(state.by_entity, entity_route_key(program, entity)), "::"@)
}

/// The routes with one more.
pub open spec fn with_route(state: RoutesState, route: Route) -> RoutesState {
    RoutesState {
        routes: stored(state.routes, route_key(route.creature_id, route.path), route),
        by_entity: stored(
            state.by_entity,
            entity_route_key(route.program_id, route.entity_id),
            route.creature_id + "::"@ + route.path,
        ),
        ..state
    }
}

/// The routes without that of a creature and a path. The entity that answered it forgets
/// it, unless it answers another one by now.
pub open spec fn without_route(
    state: RoutesState,
    creature: Seq<char>,
    path: Seq<char>,
) -> RoutesState {
    match lookup(state.routes, route_key(creature, path)) {
        None => state,
        Some(route) => RoutesState {
            routes: dropped(state.routes, route_key(creature, path)),
            by_entity: if route_of(state, route.program_id, route.entity_id) == Some(
                (creature, path),
            ) {
                dropped(state.by_entity, entity_route_key(route.program_id, route.entity_id))
            } else {
                state.by_entity
            },
            ..state
        },
    }
}

impl GatewayRoutes {
    /// No routes.
    pub fn new() -> (r: Self)
        ensures
            r@.routes.len() == 0,
            r@.by_entity.len() == 0,
            r@.aliases.len() == 0,
    {
        GatewayRoutes { routes: Table::new(), by_entity: Table::new(), aliases: Table::new() }
    }

    /// The route of a creature and a path.
    pub fn route(&self, creature: &str, path: &str) -> (r: Option<GatewayRoute>)
        ensures
            match r {
                Some(route) => lookup(self@.routes, route_key(creature@, path@)) == Some(route@),
                None => lookup(self@.routes, route_key(creature@, path@)) is None,
            },
    {
        let key = join4("vmHttpRoute::", creature, "::", path);
        match self.routes.get(key.as_str()) {
            Some(route) => Some(route.copy()),
            None => None,
        }
    }

    /// The creature and the path of an entity's route.
    pub fn route_of_entity(&self, program: &str, entity: &str) -> (r: Option<(String, String)>)
        ensures
            match r {
                Some((creature, path)) => route_of(self@, program@, entity@) == Some(
                    (creature@, path@),
                ),
                None => route_of(self@, program@, entity@) is None,
            },
    {
        let key = join4("vmHttpRouteFor::", program, "::", entity);
        match self.by_entity.get(key.as_str()) {
            Some(text) => match split_once(text.as_str(), "::") {
                Some((creature, path)) => Some((creature.to_owned(), path.to_owned())),
                None => None,
            },
            None => {
                proof {
                    reveal_strlit("::");
                    lemma_first_from(Seq::<char>::empty(), "::"@, 0);
                }
                None
            },
        }
    }

    /// Add a route, or point the one of its creature and path elsewhere.
    pub fn put_route(&mut self, route: &GatewayRoute)
        ensures
            final(self)@ == with_route(old(self)@, route@),
    {
        let key = join4("vmHttpRoute::", route.creature_id.as_str(), "::", route.path.as_str());
        let back = join4(
            "vmHttpRouteFor::",
            route.program_id.as_str(),
            "::",
            route.entity_id.as_str(),
        );
        let place = join3(route.creature_id.as_str(), "::", route.path.as_str());
        self.routes.put(key.as_str(), route.copy());
        self.by_entity.put(back.as_str(), place);
    }

    /// Remove a route.
    pub fn delete_route(&mut self, creature: &str, path: &str)
        ensures
            final(self)@ == without_route(old(self)@, creature@, path@),
    {
        let route = match self.route(creature, path) {
            Some(route) => route,
            None => {
                return;
            },
        };
        let answers: bool = match self.route_of_entity(
            route.program_id.as_str(),
            route.entity_id.as_str(),
        ) {
            Some((c, p)) => same(c.as_str(), creature) && same(p.as_str(), path),
            None => false,
        };
        let key = join4("vmHttpRoute::", creature, "::", path);
        self.routes.remove(key.as_str());
        if answers {
            let back = join4(
                "vmHttpRouteFor::",
                route.program_id.as_str(),
                "::",
                route.entity_id.as_str(),
            );
            self.by_entity.remove(back.as_str());
        }
    }

    /// The creature that a short name stands for.
    pub fn alias(&self, local_part: &str) -> (r: Option<String>)
        ensures
            match r {
                Some(creature) => creature@.len() > 0 && creature@ == link_of(
                    self@.aliases,
                    alias_key(local_part@),
                ),
                None => link_of(self@.aliases, alias_key(local_part@)).len() == 0,
            },
    {
        let key = join2("vmHttpRouteUser::", local_part);
        match self.aliases.get(key.as_str()) {
            Some(creature) => if creature.as_str().is_empty() {
                None
            } else {
                Some(creature.clone())
            },
            None => None,
        }
    }

    /// Let a short name stand for a creature.
    pub fn put_alias(&mut self, local_part: &str, creature: &str)
        ensures
            final(self)@ == (RoutesState {
                aliases: stored(old(self)@.aliases, alias_key(local_part@), creature@),
                ..old(self)@
            }),
    {
        let key = join2("vmHttpRouteUser::", local_part);
        self.aliases.put(key.as_str(), creature.to_owned());
    }
}

/// The routes after an entity was bound to a path, or to none where the path is empty. The
/// path that it answered before is dropped, and the creature's short name is recorded.
pub open spec fn route_registered(
    state: RoutesState,
    route: Route,
    local_part: Seq<char>,
) -> RoutesState {
    let cleared = match route_of(state, route.program_id, route.entity_id) {
        Some((creature, path)) => if route.path.len() > 0 && creature == route.creature_id && path
            == route.path {
            state
        } else {
            without_route(state, creature, path)
        },
        None => state,
    };
    if route.path.len() == 0 || route.creature_id.len() == 0 {
        cleared
    } else {
        let placed = with_route(cleared, route);
        if local_part.len() > 0 && local_part != route.creature_id {
            RoutesState {
                aliases: stored(placed.aliases, alias_key(local_part), route.creature_id),
                ..placed
            }
        } else {
            placed
        }
    }
}

/// Bind an entity to a path of its creature. `local_part` is the short form of the
/// creature's user name, empty where it has none.
pub fn register_gateway_route(routes: &mut GatewayRoutes, route: &GatewayRoute, local_part: &str)
    ensures
        final(routes)@ == route_registered(old(routes)@, route@, local_part@),
{
    match routes.route_of_entity(route.program_id.as_str(), route.entity_id.as_str()) {
        Some((creature, path)) => {
            let unchanged: bool = !route.path.as_str().is_empty() && same(
                creature.as_str(),
                route.creature_id.as_str(),
            ) && same(path.as_str(), route.path.as_str());
            if !unchanged {
                routes.delete_route(creature.as_str(), path.as_str());
            }
        },
        None => {},
    }
    if route.path.as_str().is_empty() || route.creature_id.as_str().is_empty() {
        return;
    }
    routes.put_route(route);
    if !local_part.is_empty() && !same(local_part, route.creature_id.as_str()) {
        routes.put_alias(local_part, route.creature_id.as_str());
    }
}

/// The path of a request to an instance: it begins with a slash.
pub open spec fn request_path(path: Seq<char>) -> Seq<char> {
    if crate::text::trimmed(path).len() == 0 {
        "/"@
    } else if path.len() > 0 && path[0] == '/' {
        path
    } else {
        "/"@ + path
    }
}

/// The path of a request to an instance: it begins with a slash.
pub fn normalize_gateway_path(path: &str) -> (r: String)
    ensures
        r@ == request_path(path@),
{
    if crate::text::blank(path) {
        return "/".to_owned();
    }
    proof {
        reveal_strlit("/");
        crate::text::lemma_prefix_of_one(path@, '/');
        assert("/"@ =~= seq!['/']);
    }
    if crate::text::starts_with(path, "/") {
        return path.to_owned();
    }
    join2("/", path)
}

/// Where a request to an instance goes.
pub open spec fn instance_url(host: Seq<char>, port: int, path: Seq<char>) -> Seq<char> {
    "http://"@ + host + ":"@ + crate::decimal::digits(port as nat) + request_path(path)
}

/// Where a request to an instance goes; an instance without an HTTP port takes none.
pub fn forward_url(host: &str, port: Option<u16>, path: &str) -> (r: Result<String, String>)
    ensures
        match (port, r) {
            (Some(p), Ok(url)) => url@ == instance_url(host@, p as int, path@),
            (None, Err(e)) => e@ == "missing VM HTTP port in gateway endpoint"@,
            _ => false,
        },
{
    let number: u16 = match port {
        Some(number) => number,
        None => {
            return Err("missing VM HTTP port in gateway endpoint".to_owned());
        },
    };
    let text = crate::decimal::write_u64(number as u64);
    let head = join4("http://", host, ":", text.as_str());
    let tail = normalize_gateway_path(path);
    Ok(join2(head.as_str(), tail.as_str()))
}

/// What an instance answered to a request that was forwarded to it.
pub struct InstanceAnswer {
    pub runtime: String,
    pub machine_id: String,
    pub vm_id: String,
    pub status: u16,
    pub body: Vec<u8>,
}

/// The answer of an instance as it goes back.
pub open spec fn forwarded_answer(answer: InstanceAnswer) -> Tree {
    no_fields().with("ok"@, Tree::Bool(true)).with("protocol"@, Tree::Text("http"@)).with(
        "runtime"@,
        Tree::Text(answer.runtime@),
    ).with("machineId"@, Tree::Text(answer.machine_id@)).with(
        "vmId"@,
        Tree::Text(answer.vm_id@),
    ).with("status"@, Tree::Whole(answer.status as i64)).with(
        "bodyBase64"@,
        Tree::Text(base64_text(answer.body@)),
    )
}

/// The answer of an instance as it goes back. Its body is short enough to be encoded.
pub fn answer_forwarded(answer: &InstanceAnswer) -> (r: Json)
    requires
        answer.body@.len() <= usize::MAX / 4,
    ensures
        r@ == forwarded_answer(*answer),
{
    object().with("ok", Json::Bool(true)).with("protocol", Json::Text("http".to_owned())).with(
        "runtime",
        Json::Text(answer.runtime.clone()),
    ).with("machineId", Json::Text(answer.machine_id.clone())).with(
        "vmId",
        Json::Text(answer.vm_id.clone()),
    ).with("status", Json::Whole(answer.status as i64)).with(
        "bodyBase64",
        Json::Text(base64_encode(answer.body.as_slice())),
    )
}

// ---------------------------------------------------------------- laws

/// Whether a creature's name can be told apart from what follows it in a list of parts.
pub open spec fn is_plain_name(name: Seq<char>) -> bool {
    !name.contains(':')
}

/// A name without colons is what stands before the first double colon.
pub proof fn lemma_cut_after_name(name: Seq<char>, rest: Seq<char>)
    requires
        is_plain_name(name),
    ensures
        cut(name + "::"@ + rest, "::"@) == Some((name, rest)),
{
    reveal_strlit("::");
    let sep = "::"@;
    let whole = name + sep + rest;
    lemma_first_from(whole, sep, 0);
    let at = name.len() as int;
    assert(whole.subrange(at, at + 2) =~= sep);
    assert(occurs_at(whole, sep, at));
    match first_from(whole, sep, 0) {
        None => {},
        Some(i) => {
            if i < at {
                assert(whole.subrange(i, i + 2) =~= sep);
                assert(whole.subrange(i, i + 2)[0] == whole[i]);
                assert(whole[i] == name[i]);
                assert(name.contains(':'));
            }
            assert(whole.subrange(0, at) =~= name);
            assert(whole.subrange(at + 2, whole.len() as int) =~= rest);
        },
    }
}

/// A path that an entity was bound to leads to that entity, and the entity knows it.
pub proof fn law_a_registered_path_is_answered(
    state: RoutesState,
    route: Route,
    local_part: Seq<char>,
)
    requires
        route.path.len() > 0,
        route.creature_id.len() > 0,
        is_plain_name(route.creature_id),
    ensures
        ({
            let after = route_registered(state, route, local_part);
            &&& lookup(after.routes, route_key(route.creature_id, route.path)) == Some(route)
            &&& route_of(after, route.program_id, route.entity_id) == Some(
                (route.creature_id, route.path),
            )
        }),
{
    lemma_cut_after_name(route.creature_id, route.path);
}

/// An entity answers one path at most: the path it answered before leads nowhere once the
/// entity is bound to another one or to none.
pub proof fn law_the_earlier_path_is_dropped(
    state: RoutesState,
    route: Route,
    local_part: Seq<char>,
    creature: Seq<char>,
    path: Seq<char>,
)
    requires
        route_of(state, route.program_id, route.entity_id) == Some((creature, path)),
        route.path.len() == 0 || route_key(creature, path) != route_key(
            route.creature_id,
            route.path,
        ),
    ensures
        lookup(
            route_registered(state, route, local_part).routes,
            route_key(creature, path),
        ) is None,
{
    law_lookup_after_drop(state.routes, route_key(creature, path), route_key(creature, path));
}

} // verus!
