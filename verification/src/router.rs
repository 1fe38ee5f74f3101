//! The route table and the dispatcher: routes are kept in the order in
//! which they were registered; a request resolves to the first route that
//! matches its path and has its method.

use vstd::prelude::*;
use std::sync::Arc;
use crate::handler::{Context, Handler, HandlerTrait, RouteView};
use crate::method::Method;
use crate::params::{Params, Query, query_of};
use crate::pattern::{CompileError, template_compiles, template_matches, template_params};
use crate::response::{
    Response,
    ResponseView,
    method_not_allowed_view,
    not_found_view,
    response_method_not_allowed,
    response_not_found,
};

verus! {

/// Why a lookup found no route.
#[derive(Clone, Copy, Debug, PartialEq, Eq, Structural)]
pub enum LookupError {
    /// No route of any method matches the path.
    NotFound,
    /// Some route matches the path, but none of them has the method.
    MethodNotAllowed,
}

/// The result of a successful lookup: the route, and the parameters of
/// the request.
pub struct RouteMatch<'a, H> {
    pub query: Query,
    pub param: Params,
    pub handler: &'a Handler<H>,
}

/// What a successful lookup says.
pub struct RouteMatchView<H> {
    pub query: Map<Seq<char>, Seq<char>>,
    pub param: Map<Seq<char>, Seq<char>>,
    pub route: RouteView<H>,
}

impl<'a, H> View for RouteMatch<'a, H> {
    type V = RouteMatchView<H>;

    open spec fn view(&self) -> RouteMatchView<H> {
        RouteMatchView { query: self.query@, param: self.param@, route: self.handler@ }
    }
}

/// Whether route `i` matches `path`, whatever its method.
pub open spec fn path_hit<H>(routes: Seq<RouteView<H>>, i: int, path: Seq<char>) -> bool {
    0 <= i < routes.len() && template_matches(routes[i].template, path)
}

/// Whether route `i` matches `path` and has the method `method`.
pub open spec fn hit<H>(routes: Seq<RouteView<H>>, i: int, method: Method, path: Seq<char>) -> bool {
    path_hit(routes, i, path) && routes[i].method == method
}

/// Whether route `i` is the first registered route that matches `path`
/// and has the method `method`.
pub open spec fn first_hit<H>(
    routes: Seq<RouteView<H>>,
    i: int,
    method: Method,
    path: Seq<char>,
) -> bool {
    hit(routes, i, method, path) && forall|j: int| 0 <= j < i ==> !hit(routes, j, method, path)
}

/// The route that a request resolves to, by its place in the table:
/// nothing is found where no route matches the path; the method is not
/// allowed where some route matches the path but none of those has the
/// method; else it is the first registered route with both.
pub open spec fn resolve<H>(routes: Seq<RouteView<H>>, method: Method, path: Seq<char>) -> Result<
    int,
    LookupError,
> {
    if !exists|i: int| path_hit(routes, i, path) {
        Err(LookupError::NotFound)
    } else if !exists|i: int| hit(routes, i, method, path) {
        Err(LookupError::MethodNotAllowed)
    } else {
        Ok(choose|i: int| first_hit(routes, i, method, path))
    }
}

/// What a lookup yields: the route that the request resolves to, with the
/// path parameters that its template yields and the query parameters.
pub open spec fn lookup<H>(
    routes: Seq<RouteView<H>>,
    method: Method,
    path: Seq<char>,
    query: Map<Seq<char>, Seq<char>>,
) -> Result<RouteMatchView<H>, LookupError> {
    match resolve(routes, method, path) {
        Ok(i) => Ok(
            RouteMatchView { query, param: template_params(routes[i].template, path), route: routes[i] },
        ),
        Err(e) => Err(e),
    }
}

/// What the result of a lookup says.
pub open spec fn lookup_view<'a, H>(r: Result<RouteMatch<'a, H>, LookupError>) -> Result<
    RouteMatchView<H>,
    LookupError,
> {
    match r {
        Ok(m) => Ok(m@),
        Err(e) => Err(e),
    }
}

/// What a list of routes says.
pub open spec fn route_views<H>(handlers: Seq<&Handler<H>>) -> Seq<RouteView<H>> {
    Seq::new(handlers.len(), |i: int| handlers[i]@)
}

/// The routes whose template matches `path`, in their order.
pub open spec fn routes_on_path<H>(routes: Seq<RouteView<H>>, path: Seq<char>) -> Seq<RouteView<H>> {
    routes.filter(|r: RouteView<H>| template_matches(r.template, path))
}

/// A request resolves to route `i` exactly when `i` is the first
/// registered route that matches its path and has its method.
pub proof fn lemma_resolve_first_hit<H>(
    routes: Seq<RouteView<H>>,
    i: int,
    method: Method,
    path: Seq<char>,
)
    ensures
        resolve(routes, method, path) == Ok::<int, LookupError>(i) <==> first_hit(
            routes,
            i,
            method,
            path,
        ),
{
    if first_hit(routes, i, method, path) {
        assert(path_hit(routes, i, path));
        assert(hit(routes, i, method, path));
        let k = choose|k: int| first_hit(routes, k, method, path);
        assert(first_hit(routes, k, method, path));
        if k < i {
            assert(!hit(routes, k, method, path));
        }
        if i < k {
            assert(!hit(routes, i, method, path));
        }
    }
    if resolve(routes, method, path) == Ok::<int, LookupError>(i) {
        let w = choose|w: int| hit(routes, w, method, path);
        lemma_first_hit_exists(routes, w, method, path);
    }
}

/// Where some route at or before `upto` matches the path and has the
/// method, there is a first such route.
pub proof fn lemma_first_hit_exists<H>(
    routes: Seq<RouteView<H>>,
    upto: int,
    method: Method,
    path: Seq<char>,
)
    requires
        hit(routes, upto, method, path),
    ensures
        exists|k: int| first_hit(routes, k, method, path),
    decreases upto,
{
    if exists|j: int| 0 <= j < upto && hit(routes, j, method, path) {
        let j = choose|j: int| 0 <= j < upto && hit(routes, j, method, path);
        lemma_first_hit_exists(routes, j, method, path);
    } else {
        assert(first_hit(routes, upto, method, path));
    }
}

/// A request with the method of a registered route, and a path that the
/// route's template matches, resolves to a route: to that one where no
/// route registered before it has the same method and matches the path
/// too, and else to the first registered of those.
pub proof fn lemma_registered_route_resolves<H>(
    routes: Seq<RouteView<H>>,
    i: int,
    path: Seq<char>,
    query: Map<Seq<char>, Seq<char>>,
)
    requires
        0 <= i < routes.len(),
        template_matches(routes[i].template, path),
    ensures
        resolve(routes, routes[i].method, path) is Ok,
        0 <= resolve(routes, routes[i].method, path)->Ok_0 <= i,
        first_hit(routes, resolve(routes, routes[i].method, path)->Ok_0, routes[i].method, path),
        (forall|j: int| 0 <= j < i ==> !hit(routes, j, routes[i].method, path)) ==> lookup(
            routes,
            routes[i].method,
            path,
            query,
        ) == Ok::<RouteMatchView<H>, LookupError>(
            RouteMatchView {
                query,
                param: template_params(routes[i].template, path),
                route: routes[i],
            },
        ),
{
    let method = routes[i].method;
    assert(path_hit(routes, i, path));
    assert(hit(routes, i, method, path));
    lemma_first_hit_exists(routes, i, method, path);
    let k = choose|k: int| first_hit(routes, k, method, path);
    lemma_resolve_first_hit(routes, k, method, path);
    if i < k {
        assert(!hit(routes, i, method, path));
    }
    if forall|j: int| 0 <= j < i ==> !hit(routes, j, method, path) {
        assert(first_hit(routes, i, method, path));
        lemma_resolve_first_hit(routes, i, method, path);
    }
}

/// Registering one more route changes nothing for a request that
/// resolved to a route before: it still resolves to that route.
pub proof fn lemma_register_keeps_earlier<H>(
    routes: Seq<RouteView<H>>,
    added: RouteView<H>,
    method: Method,
    path: Seq<char>,
)
    requires
        resolve(routes, method, path) is Ok,
    ensures
        resolve(routes.push(added), method, path) == resolve(routes, method, path),
{
    let k = resolve(routes, method, path)->Ok_0;
    lemma_resolve_first_hit(routes, k, method, path);
    let longer = routes.push(added);
    assert(longer[k] == routes[k]);
    assert(hit(longer, k, method, path));
    assert forall|j: int| 0 <= j < k implies !hit(longer, j, method, path) by {
        assert(longer[j] == routes[j]);
        assert(!hit(routes, j, method, path));
    }
    assert(first_hit(longer, k, method, path));
    lemma_resolve_first_hit(longer, k, method, path);
}

/// A route registered last is the one that a request resolves to where
/// it matches the request's path and has its method, and no route
/// registered before does.
pub proof fn lemma_registered_last_resolves<H>(
    routes: Seq<RouteView<H>>,
    added: RouteView<H>,
    path: Seq<char>,
)
    requires
        template_matches(added.template, path),
        forall|j: int| 0 <= j < routes.len() ==> !hit(routes, j, added.method, path),
    ensures
        resolve(routes.push(added), added.method, path) == Ok::<int, LookupError>(
            routes.len() as int,
        ),
{
    let longer = routes.push(added);
    let n = routes.len() as int;
    assert(longer[n] == added);
    assert(hit(longer, n, added.method, path));
    assert forall|j: int| 0 <= j < n implies !hit(longer, j, added.method, path) by {
        assert(longer[j] == routes[j]);
        assert(!hit(routes, j, added.method, path));
    }
    assert(first_hit(longer, n, added.method, path));
    lemma_resolve_first_hit(longer, n, added.method, path);
}

/// Looking the same request up twice in the same table yields the same:
/// two results of a lookup with one method, path and query say the same
/// route and the same parameters, or fail alike.
pub proof fn lemma_lookup_repeatable<'a, H>(
    routes: Seq<RouteView<H>>,
    method: Method,
    path: Seq<char>,
    query: Map<Seq<char>, Seq<char>>,
    first: Result<RouteMatch<'a, H>, LookupError>,
    second: Result<RouteMatch<'a, H>, LookupError>,
)
    requires
        lookup_view(first) == lookup(routes, method, path, query),
        lookup_view(second) == lookup(routes, method, path, query),
    ensures
        lookup_view(first) == lookup_view(second),
        first is Ok <==> second is Ok,
        first matches Ok(a) ==> second matches Ok(b) && a.handler@ == b.handler@ && a.param@
            == b.param@ && a.query@ == b.query@,
        first matches Err(e) ==> second == Err::<RouteMatch<'a, H>, LookupError>(e),
{
}

/// Whether entry `j` of `list` is the first one with the method `method`.
pub open spec fn first_of_method<H>(list: Seq<RouteView<H>>, j: int, method: Method) -> bool {
    0 <= j < list.len() && list[j].method == method && forall|k: int|
        0 <= k < j ==> (#[trigger] list[k]).method != method
}

/// Resolving in two phases comes to the same as `resolve`. Take first
/// the routes of every method that match the path, in their order. There
/// are none exactly when no route matches the path; one of them has the
/// method exactly when some route matches the path and has the method;
/// and the first of them with the method is the first registered route
/// that matches the path and has the method.
pub proof fn lemma_two_phases<H>(routes: Seq<RouteView<H>>, method: Method, path: Seq<char>)
    ensures
        routes_on_path(routes, path).len() == 0 <==> !(exists|i: int| path_hit(routes, i, path)),
        (exists|j: int|
            0 <= j < routes_on_path(routes, path).len() && (#[trigger] routes_on_path(
                routes,
                path,
            )[j]).method == method) <==> (exists|i: int| hit(routes, i, method, path)),
        forall|j: int| #[trigger]
            first_of_method(routes_on_path(routes, path), j, method) ==> exists|i: int|
                first_hit(routes, i, method, path) && routes[i] == routes_on_path(routes, path)[j],
    decreases routes.len(),
{
    reveal(Seq::filter);
    let found = routes_on_path(routes, path);
    if routes.len() == 0 {
        assert(found.len() == 0);
    } else {
        let earlier = routes.drop_last();
        let last = routes.last();
        let n = earlier.len() as int;
        let found_earlier = routes_on_path(earlier, path);
        lemma_two_phases(earlier, method, path);
        assert forall|i: int| 0 <= i < n implies (path_hit(routes, i, path) <==> path_hit(
            earlier,
            i,
            path,
        )) && (hit(routes, i, method, path) <==> hit(earlier, i, method, path)) by {
            assert(routes[i] == earlier[i]);
        }
        let last_matches = template_matches(last.template, path);
        assert(path_hit(routes, n, path) <==> last_matches);
        assert(hit(routes, n, method, path) <==> last_matches && last.method == method);
        if last_matches {
            assert(found == found_earlier.push(last));
            assert(found[found.len() - 1] == last);
        } else {
            assert(found == found_earlier);
        }
        // no route matches the path, exactly when nothing was found
        if exists|i: int| path_hit(routes, i, path) {
            let i = choose|i: int| path_hit(routes, i, path);
            if i < n {
                assert(path_hit(earlier, i, path));
            }
            assert(found.len() > 0);
        }
        if found.len() > 0 {
            if last_matches {
                assert(path_hit(routes, n, path));
            } else {
                let i = choose|i: int| path_hit(earlier, i, path);
                assert(path_hit(routes, i, path));
            }
        }
        // one of those found has the method, exactly when a route hits
        if exists|j: int| 0 <= j < found.len() && (#[trigger] found[j]).method == method {
            let j = choose|j: int| 0 <= j < found.len() && (#[trigger] found[j]).method == method;
            if j < found_earlier.len() {
                assert(found_earlier[j] == found[j]);
                let i = choose|i: int| hit(earlier, i, method, path);
                assert(hit(routes, i, method, path));
            } else {
                assert(hit(routes, n, method, path));
            }
        }
        if exists|i: int| hit(routes, i, method, path) {
            let i = choose|i: int| hit(routes, i, method, path);
            if i < n {
                assert(hit(earlier, i, method, path));
                let j = choose|j: int|
                    0 <= j < found_earlier.len() && (#[trigger] found_earlier[j]).method == method;
                assert(found[j] == found_earlier[j]);
            } else {
                assert(found[found.len() - 1].method == method);
            }
        }
        // the first found with the method is the first hit
        assert forall|j: int| #[trigger] first_of_method(found, j, method) implies exists|i: int|
            first_hit(routes, i, method, path) && routes[i] == found[j] by {
            if j < found_earlier.len() {
                assert(found[j] == found_earlier[j]);
                assert forall|k: int| 0 <= k < j implies (#[trigger] found_earlier[k]).method
                    != method by {
                    assert(found[k] == found_earlier[k]);
                }
                assert(first_of_method(found_earlier, j, method));
                let i = choose|i: int|
                    first_hit(earlier, i, method, path) && earlier[i] == found_earlier[j];
                assert(hit(routes, i, method, path));
                assert forall|m: int| 0 <= m < i implies !hit(routes, m, method, path) by {
                    assert(!hit(earlier, m, method, path));
                }
                assert(first_hit(routes, i, method, path) && routes[i] == found[j]);
            } else {
                assert(last_matches);
                assert(found[j] == last);
                assert forall|k: int| 0 <= k < found_earlier.len() implies (
                #[trigger] found_earlier[k]).method != method by {
                    assert(found[k] == found_earlier[k]);
                }
                assert forall|m: int| 0 <= m < n implies !hit(routes, m, method, path) by {
                    if hit(earlier, m, method, path) {
                        let k = choose|k: int|
                            0 <= k < found_earlier.len() && (#[trigger] found_earlier[k]).method
                                == method;
                        assert(false);
                    }
                }
                assert(first_hit(routes, n, method, path) && routes[n] == found[j]);
            }
        }
    }
}

/// The route table: the registered routes in registration order.
pub struct Router<H> {
    routes: Vec<Handler<H>>,
}

impl<H> View for Router<H> {
    type V = Seq<RouteView<H>>;

    closed spec fn view(&self) -> Seq<RouteView<H>> {
        Seq::new(self.routes@.len(), |i: int| self.routes@[i]@)
    }
}

impl<H> Router<H> {
    /// A table without routes.
    pub fn new() -> (router: Self)
        ensures
            router@ == Seq::<RouteView<H>>::empty(),
    {
        let router = Self { routes: Vec::new() };
        assert(router@ =~= Seq::<RouteView<H>>::empty());
        router
    }

    /// The number of registered routes.
    pub fn len(&self) -> (n: usize)
        ensures
            n == self@.len(),
    {
        self.routes.len()
    }

    /// Registers `handler` for `method` and the template `template`. A
    /// template that compiles is appended behind the routes registered so
    /// far; one that does not leaves the table as it was.
    pub fn register(&mut self, method: Method, template: &str, handler: H) -> (r: Result<
        (),
        CompileError,
    >)
        ensures
            r is Ok <==> template_compiles(template@),
            r is Ok ==> final(self)@ == old(self)@.push(
                RouteView { template: template@, method, handler },
            ),
            r is Err ==> final(self)@ == old(self)@,
            r matches Err(e) ==> e.template@ == template@,
    {
        match Handler::new(template, method, handler) {
            Ok(route) => {
                self.routes.push(route);
                assert(self@ =~= old(self)@.push(
                    RouteView { template: template@, method, handler },
                ));
                Ok(())
            },
            Err(e) => Err(e),
        }
    }

    /// Registers `handler` for `GET` requests to `template`.
    pub fn get(&mut self, template: &str, handler: H) -> (r: Result<(), CompileError>)
        ensures
            r is Ok <==> template_compiles(template@),
            r is Ok ==> final(self)@ == old(self)@.push(
                RouteView { template: template@, method: Method::Get, handler },
            ),
            r is Err ==> final(self)@ == old(self)@,
            r matches Err(e) ==> e.template@ == template@,
    {
        self.register(Method::Get, template, handler)
    }

    /// Registers `handler` for `POST` requests to `template`.
    pub fn post(&mut self, template: &str, handler: H) -> (r: Result<(), CompileError>)
        ensures
            r is Ok <==> template_compiles(template@),
            r is Ok ==> final(self)@ == old(self)@.push(
                RouteView { template: template@, method: Method::Post, handler },
            ),
            r is Err ==> final(self)@ == old(self)@,
            r matches Err(e) ==> e.template@ == template@,
    {
        self.register(Method::Post, template, handler)
    }

    /// Registers `handler` for `PUT` requests to `template`.
    pub fn put(&mut self, template: &str, handler: H) -> (r: Result<(), CompileError>)
        ensures
            r is Ok <==> template_compiles(template@),
            r is Ok ==> final(self)@ == old(self)@.push(
                RouteView { template: template@, method: Method::Put, handler },
            ),
            r is Err ==> final(self)@ == old(self)@,
            r matches Err(e) ==> e.template@ == template@,
    {
        self.register(Method::Put, template, handler)
    }

    /// Registers `handler` for `PATCH` requests to `template`.
    pub fn patch(&mut self, template: &str, handler: H) -> (r: Result<(), CompileError>)
        ensures
            r is Ok <==> template_compiles(template@),
            r is Ok ==> final(self)@ == old(self)@.push(
                RouteView { template: template@, method: Method::Patch, handler },
            ),
            r is Err ==> final(self)@ == old(self)@,
            r matches Err(e) ==> e.template@ == template@,
    {
        self.register(Method::Patch, template, handler)
    }

    /// Registers `handler` for `DELETE` requests to `template`.
    pub fn delete(&mut self, template: &str, handler: H) -> (r: Result<(), CompileError>)
        ensures
            r is Ok <==> template_compiles(template@),
            r is Ok ==> final(self)@ == old(self)@.push(
                RouteView { template: template@, method: Method::Delete, handler },
            ),
            r is Err ==> final(self)@ == old(self)@,
            r matches Err(e) ==> e.template@ == template@,
    {
        self.register(Method::Delete, template, handler)
    }

    /// Registers `handler` for `HEAD` requests to `template`.
    pub fn head(&mut self, template: &str, handler: H) -> (r: Result<(), CompileError>)
        ensures
            r is Ok <==> template_compiles(template@),
            r is Ok ==> final(self)@ == old(self)@.push(
                RouteView { template: template@, method: Method::Head, handler },
            ),
            r is Err ==> final(self)@ == old(self)@,
            r matches Err(e) ==> e.template@ == template@,
    {
        self.register(Method::Head, template, handler)
    }

    /// Registers `handler` for `OPTIONS` requests to `template`.
    pub fn options(&mut self, template: &str, handler: H) -> (r: Result<(), CompileError>)
        ensures
            r is Ok <==> template_compiles(template@),
            r is Ok ==> final(self)@ == old(self)@.push(
                RouteView { template: template@, method: Method::Options, handler },
            ),
            r is Err ==> final(self)@ == old(self)@,
            r matches Err(e) ==> e.template@ == template@,
    {
        self.register(Method::Options, template, handler)
    }

    /// Registers `handler` for `CONNECT` requests to `template`.
    pub fn connect(&mut self, template: &str, handler: H) -> (r: Result<(), CompileError>)
        ensures
            r is Ok <==> template_compiles(template@),
            r is Ok ==> final(self)@ == old(self)@.push(
                RouteView { template: template@, method: Method::Connect, handler },
            ),
            r is Err ==> final(self)@ == old(self)@,
            r matches Err(e) ==> e.template@ == template@,
    {
        self.register(Method::Connect, template, handler)
    }

    /// Registers `handler` for `TRACE` requests to `template`.
    pub fn trace(&mut self, template: &str, handler: H) -> (r: Result<(), CompileError>)
        ensures
            r is Ok <==> template_compiles(template@),
            r is Ok ==> final(self)@ == old(self)@.push(
                RouteView { template: template@, method: Method::Trace, handler },
            ),
            r is Err ==> final(self)@ == old(self)@,
            r matches Err(e) ==> e.template@ == template@,
    {
        self.register(Method::Trace, template, handler)
    }

    /// The routes of every method whose pattern matches the whole of
    /// `path`, in registration order; `None` where there is none.
    pub fn match_by_path(&self, path: &str) -> (r: Option<Vec<&Handler<H>>>)
        ensures
            r is None <==> !(exists|i: int| path_hit(self@, i, path@)),
            r matches Some(found) ==> route_views(found@) == routes_on_path(self@, path@),
    {
        let mut found: Vec<&Handler<H>> = Vec::new();
        let mut i: usize = 0;
        proof {
            reveal(Seq::filter);
            assert(self@.take(0) =~= Seq::<RouteView<H>>::empty());
            assert(route_views(found@) =~= routes_on_path(self@.take(0), path@));
        }
        while i < self.routes.len()
            invariant
                i <= self.routes.len(),
                self@.len() == self.routes.len(),
                route_views(found@) == routes_on_path(self@.take(i as int), path@),
                found@.len() > 0 <==> exists|j: int| 0 <= j < i && path_hit(self@, j, path@),
            decreases self.routes.len() - i,
        {
            let route = &self.routes[i];
            proof {
                reveal(Seq::filter);
                assert(route@ == self@[i as int]);
                assert(self@.take(i + 1).drop_last() =~= self@.take(i as int));
                assert(self@.take(i + 1).last() == self@[i as int]);
            }
            if route.match_path(path) {
                let ghost before = found@;
                found.push(route);
                assert(route_views(found@) =~= route_views(before).push(route@));
                assert(path_hit(self@, i as int, path@));
            }
            i += 1;
        }
        assert(self@.take(self@.len() as int) =~= self@);
        if found.len() == 0 {
            None
        } else {
            Some(found)
        }
    }

    /// The first of `handlers` that was registered under `method`.
    pub fn find_by_method<'a>(&self, handlers: Vec<&'a Handler<H>>, method: &Method) -> (r: Option<
        &'a Handler<H>,
    >)
        ensures
            match r {
                Some(h) => exists|i: int|
                    0 <= i < handlers.len() && h == #[trigger] handlers[i] && h@.method == *method
                        && forall|j: int| 0 <= j < i ==> (#[trigger] handlers[j])@.method != *method,
                None => forall|i: int|
                    0 <= i < handlers.len() ==> (#[trigger] handlers[i])@.method != *method,
            },
    {
        let mut i: usize = 0;
        while i < handlers.len()
            invariant
                i <= handlers.len(),
                forall|j: int| 0 <= j < i ==> (#[trigger] handlers[j])@.method != *method,
            decreases handlers.len() - i,
        {
            let h: &'a Handler<H> = handlers[i];
            if h.method() == *method {
                return Some(h);
            }
            i += 1;
        }
        None
    }

    /// The response for a request whose method is none of those that
    /// routes are registered under: no route can have that method, so it
    /// is 405 where some route matches the path, and 404 where none does.
    pub fn unlisted_method_response(&self, path: &str) -> (response: Response)
        ensures
            (exists|i: int| path_hit(self@, i, path@)) ==> response@ == method_not_allowed_view(),
            !(exists|i: int| path_hit(self@, i, path@)) ==> response@ == not_found_view(),
    {
        match self.match_by_path(path) {
            Some(_) => error_response(LookupError::MethodNotAllowed),
            None => error_response(LookupError::NotFound),
        }
    }

    /// Looks a request up, in two phases: it takes the routes of every
    /// method that match the whole path, and of those the first that has
    /// the method. The result is that route, with the path parameters
    /// that its pattern yields and the parsed query; `NotFound` where no
    /// route of any method matches the path, `MethodNotAllowed` where one
    /// does but none of those has the method.
    pub fn get_handler<'a>(&'a self, method: &Method, path: &str, query: Option<&str>) -> (r: Result<
        RouteMatch<'a, H>,
        LookupError,
    >)
        ensures
            lookup_view(r) == lookup(self@, *method, path@, query_of(query)),
            r matches Err(LookupError::NotFound) <==> !(exists|i: int| path_hit(self@, i, path@)),
            r matches Err(LookupError::MethodNotAllowed) <==> (exists|i: int|
                path_hit(self@, i, path@)) && !(exists|i: int| hit(self@, i, *method, path@)),
            r matches Ok(found) ==> exists|i: int|
                first_hit(self@, i, *method, path@) && found.handler@ == self@[i] && found.param@
                    == template_params(self@[i].template, path@) && found.query@ == query_of(query),
    {
        match self.match_by_path(path) {
            None => Err(LookupError::NotFound),
            Some(found) => {
                let ghost candidates = route_views(found@);
                proof {
                    lemma_two_phases(self@, *method, path@);
                }
                match self.find_by_method(found, method) {
                    None => {
                        proof {
                            assert forall|j: int| 0 <= j < candidates.len() implies (
                            #[trigger] candidates[j]).method != *method by {
                                assert(found@[j]@ == candidates[j]);
                            }
                        }
                        Err(LookupError::MethodNotAllowed)
                    },
                    Some(route) => {
                        proof {
                            let j = choose|j: int|
                                0 <= j < found@.len() && route == #[trigger] found@[j]
                                    && route@.method == *method && forall|k: int|
                                    0 <= k < j ==> (#[trigger] found@[k])@.method != *method;
                            assert(candidates[j] == route@);
                            assert forall|k: int| 0 <= k < j implies (
                            #[trigger] candidates[k]).method != *method by {
                                assert(found@[k]@ == candidates[k]);
                            }
                            assert(first_of_method(candidates, j, *method));
                            let i = choose|i: int|
                                first_hit(self@, i, *method, path@) && self@[i] == candidates[j];
                            lemma_resolve_first_hit(self@, i, *method, path@);
                        }
                        Ok(
                            RouteMatch {
                                query: Query::new(query),
                                param: route.get_params(path),
                                handler: route,
                            },
                        )
                    },
                }
            },
        }
    }
}

/// The response that the dispatcher gives by itself where a lookup found
/// no route.
pub open spec fn error_view(e: LookupError) -> ResponseView {
    match e {
        LookupError::NotFound => not_found_view(),
        LookupError::MethodNotAllowed => method_not_allowed_view(),
    }
}

/// The response for a lookup that found no route: 404 where nothing
/// matches the path, 405 where the path is routed under other methods.
pub fn error_response(e: LookupError) -> (response: Response)
    ensures
        response@ == error_view(e),
{
    match e {
        LookupError::NotFound => response_not_found(),
        LookupError::MethodNotAllowed => response_method_not_allowed(),
    }
}

/// Whether `response` answers the request: where the request resolves to
/// a route, it is an answer of that route's handler to a context that
/// holds the request, the path parameters of the route's template and the
/// query parameters; else it is the dispatcher's own 404 or 405.
pub open spec fn dispatched<S, R, H: HandlerTrait<S, R>>(
    routes: Seq<RouteView<H>>,
    method: Method,
    path: Seq<char>,
    query: Map<Seq<char>, Seq<char>>,
    req: R,
    svc: Arc<S>,
    response: Response,
) -> bool {
    match resolve(routes, method, path) {
        Ok(i) => exists|ctx: Context<R>|
            ctx.query@ == query && ctx.params@ == template_params(routes[i].template, path)
                && ctx.req == req && #[trigger] routes[i].handler.answers(svc, ctx, response),
        Err(e) => response@ == error_view(e),
    }
}

/// Dispatches one request: looks it up, and either calls the handler of
/// the route it resolves to, with the parameters of the request, or
/// answers 404 or 405 without calling any handler.
pub fn route<S, R, H: HandlerTrait<S, R>>(
    router: &Router<H>,
    method: &Method,
    path: &str,
    query: Option<&str>,
    req: R,
    svc: Arc<S>,
) -> (response: Response)
    ensures
        dispatched(router@, *method, path@, query_of(query), req, svc, response),
        !(exists|i: int| path_hit(router@, i, path@)) ==> response@ == not_found_view(),
        (exists|i: int| path_hit(router@, i, path@)) && !(exists|i: int|
            hit(router@, i, *method, path@)) ==> response@ == method_not_allowed_view(),
{
    match router.get_handler(method, path, query) {
        Ok(found) => {
            let ctx = Context::new(found.query, found.param, req);
            let response = found.handler.invoke(svc, ctx);
            response
        },
        Err(e) => error_response(e),
    }
}

} // verus!
