use std::sync::Arc;

use http_router::handler::{Context, FnHandler, Handler, HandlerTrait};
use http_router::method::Method;
use http_router::response::{IntoResponse, Response};
use http_router::router::{route, LookupError, Router};
use http_router::server::make_service;

struct Tagged(&'static str);

impl HandlerTrait<(), ()> for Tagged {
    fn invoke(&self, _s: Arc<()>, _ctx: Context<()>) -> Response {
        self.0.into_response()
    }
}

struct Echo(&'static str);

impl HandlerTrait<String, ()> for Echo {
    fn invoke(&self, s: Arc<String>, ctx: Context<()>) -> Response {
        let value = ctx.params.get_item(self.0.to_string()).cloned().unwrap_or_default();
        let q = ctx.query.get_item("q".to_string()).cloned().unwrap_or_default();
        format!("{}:{}:{}", s, value, q).into_response()
    }
}

fn dispatch(router: &Router<Tagged>, method: Method, path: &str) -> Response {
    route(router, &method, path, None, (), Arc::new(()))
}

#[test]
fn registered_route_resolves_to_its_handler() {
    let mut router = Router::new();
    router.get("/a", Tagged("get-a")).unwrap();
    router.post("/a", Tagged("post-a")).unwrap();
    router.get("/b", Tagged("get-b")).unwrap();
    assert_eq!(dispatch(&router, Method::Get, "/a").body, "get-a");
    assert_eq!(dispatch(&router, Method::Post, "/a").body, "post-a");
    assert_eq!(dispatch(&router, Method::Get, "/b").body, "get-b");
}

#[test]
fn first_registered_route_wins() {
    let mut router = Router::new();
    router.get("/items/(?P<id>[0-9]+)", Tagged("numeric")).unwrap();
    router.get("/items/(?P<name>[a-z0-9]+)", Tagged("any")).unwrap();
    assert_eq!(dispatch(&router, Method::Get, "/items/12").body, "numeric");
    assert_eq!(dispatch(&router, Method::Get, "/items/ab").body, "any");

    let mut reversed = Router::new();
    reversed.get("/items/(?P<name>[a-z0-9]+)", Tagged("any")).unwrap();
    reversed.get("/items/(?P<id>[0-9]+)", Tagged("numeric")).unwrap();
    assert_eq!(dispatch(&reversed, Method::Get, "/items/12").body, "any");
}

#[test]
fn earlier_route_of_another_method_does_not_shadow() {
    let mut router = Router::new();
    router.post("/x", Tagged("post")).unwrap();
    router.get("/x", Tagged("get")).unwrap();
    let m = router.get_handler(&Method::Get, "/x", None).ok().unwrap();
    assert_eq!(m.handler.method(), Method::Get);
    assert_eq!(m.handler.handler().0, "get");
}

#[test]
fn unknown_path_is_not_found() {
    let mut router = Router::new();
    router.get("/a", Tagged("a")).unwrap();
    let r = dispatch(&router, Method::Get, "/nowhere");
    assert_eq!(r.status, 404);
    assert_eq!(r.body, "{\"status\":404,\"msg\":\"NOT FOUND\"}");
    assert!(matches!(
        router.get_handler(&Method::Get, "/nowhere", None),
        Err(LookupError::NotFound)
    ));
}

#[test]
fn empty_table_finds_nothing() {
    let router: Router<Tagged> = Router::new();
    assert_eq!(router.len(), 0);
    assert_eq!(dispatch(&router, Method::Get, "/").status, 404);
    assert!(router.match_by_path("/").is_none());
}

#[test]
fn known_path_under_another_method_is_not_allowed() {
    let mut router = Router::new();
    router.get("/a", Tagged("a")).unwrap();
    let r = dispatch(&router, Method::Delete, "/a");
    assert_eq!(r.status, 405);
    assert_eq!(r.body, "{\"status\":405,\"msg\":\"Method Not Allowed\"}");
    assert!(matches!(
        router.get_handler(&Method::Delete, "/a", None),
        Err(LookupError::MethodNotAllowed)
    ));
}

#[test]
fn path_that_fails_the_capture_falls_through() {
    let mut router = Router::new();
    router.get("/users/(?P<id>[0-9]+)", Tagged("user")).unwrap();
    assert_eq!(dispatch(&router, Method::Get, "/users/abc").status, 404);
    router.get("/users/(?P<name>[a-z]+)", Tagged("named")).unwrap();
    assert_eq!(dispatch(&router, Method::Get, "/users/abc").body, "named");
}

#[test]
fn lookup_extracts_path_and_query_parameters() {
    let mut router = Router::new();
    router.get("/users/(?P<id>[0-9]+)", Tagged("user")).unwrap();
    let m = router.get_handler(&Method::Get, "/users/42", Some("a=1&bogus&a=2")).ok().unwrap();
    assert_eq!(m.param.get_item("id".to_string()), Some(&"42".to_string()));
    assert_eq!(m.query.get_item("a".to_string()), Some(&"2".to_string()));
    assert_eq!(m.query.get_item("bogus".to_string()), None);
    assert_eq!(m.handler.pattern().as_str(), "/users/(?P<id>[0-9]+)");
}

#[test]
fn lookup_is_repeatable() {
    let mut router = Router::new();
    router.get("/users/(?P<id>[0-9]+)", Tagged("user")).unwrap();
    router.get("/users/(?P<id>[0-9a-z]+)", Tagged("other")).unwrap();
    for _ in 0..3 {
        let m = router.get_handler(&Method::Get, "/users/7", Some("k=v")).ok().unwrap();
        assert_eq!(m.handler.handler().0, "user");
        assert_eq!(m.param.get_item("id".to_string()), Some(&"7".to_string()));
        assert_eq!(m.query.get_item("k".to_string()), Some(&"v".to_string()));
        assert!(matches!(
            router.get_handler(&Method::Put, "/users/7", None),
            Err(LookupError::MethodNotAllowed)
        ));
    }
    assert_eq!(router.len(), 2);
}

#[test]
fn failed_registration_leaves_the_table() {
    let mut router = Router::new();
    router.get("/a", Tagged("a")).unwrap();
    let e = router.get("/b/(?P<id", Tagged("b")).unwrap_err();
    assert_eq!(e.template, "/b/(?P<id");
    assert_eq!(router.len(), 1);
    assert_eq!(dispatch(&router, Method::Get, "/a").body, "a");
    assert_eq!(dispatch(&router, Method::Get, "/b/1").status, 404);
}

#[test]
fn every_verb_registers_under_its_method() {
    let mut router = Router::new();
    router.get("/r", Tagged("GET")).unwrap();
    router.post("/r", Tagged("POST")).unwrap();
    router.put("/r", Tagged("PUT")).unwrap();
    router.patch("/r", Tagged("PATCH")).unwrap();
    router.delete("/r", Tagged("DELETE")).unwrap();
    router.head("/r", Tagged("HEAD")).unwrap();
    router.options("/r", Tagged("OPTIONS")).unwrap();
    router.connect("/r", Tagged("CONNECT")).unwrap();
    router.trace("/r", Tagged("TRACE")).unwrap();
    assert_eq!(router.len(), 9);
    let methods = [
        Method::Get,
        Method::Post,
        Method::Put,
        Method::Patch,
        Method::Delete,
        Method::Head,
        Method::Options,
        Method::Connect,
        Method::Trace,
    ];
    for m in methods {
        assert_eq!(dispatch(&router, m, "/r").body, m.as_str());
    }
}

#[test]
fn register_takes_the_method_as_a_value() {
    let mut router = Router::new();
    router.register(Method::Put, "/v", Tagged("put")).unwrap();
    assert_eq!(dispatch(&router, Method::Put, "/v").body, "put");
    assert_eq!(dispatch(&router, Method::Get, "/v").status, 405);
}

#[test]
fn match_by_path_lists_routes_of_every_method_in_order() {
    let mut router = Router::new();
    router.post("/x", Tagged("first")).unwrap();
    router.get("/y", Tagged("skipped")).unwrap();
    router.get("/x", Tagged("second")).unwrap();
    router.get("/(?P<any>[a-z]+)", Tagged("third")).unwrap();
    let found = router.match_by_path("/x").unwrap();
    let tags: Vec<&str> = found.iter().map(|h| h.handler().0).collect();
    assert_eq!(tags, vec!["first", "second", "third"]);
    assert!(router.match_by_path("/1").is_none());
}

#[test]
fn find_by_method_takes_the_first_of_the_method() {
    let mut router = Router::new();
    router.post("/x", Tagged("first")).unwrap();
    router.get("/x", Tagged("second")).unwrap();
    router.get("/(?P<any>[a-z]+)", Tagged("third")).unwrap();
    let found = router.match_by_path("/x").unwrap();
    let h = router.find_by_method(found, &Method::Get).unwrap();
    assert_eq!(h.handler().0, "second");
    let found = router.match_by_path("/x").unwrap();
    assert!(router.find_by_method(found, &Method::Delete).is_none());
    assert!(router.find_by_method(Vec::new(), &Method::Get).is_none());
}

#[test]
fn handler_gets_service_parameters_and_query() {
    let mut router = Router::new();
    router.get("/ping/(?P<n>[0-9]+)", Echo("n")).unwrap();
    let r = route(
        &router,
        &Method::Get,
        "/ping/7",
        Some("q=hello&junk"),
        (),
        Arc::new("svc".to_string()),
    );
    assert_eq!(r.status, 200);
    assert_eq!(r.body, "svc:7:hello");
}

#[test]
fn ping_scenario() {
    type Ping = FnHandler<(), (), fn(Arc<()>, Context<()>) -> Response>;
    fn pong(_s: Arc<()>, _ctx: Context<()>) -> Response {
        "PONG".ok()
    }
    fn echo(_s: Arc<()>, ctx: Context<()>) -> Response {
        ctx.params.get_item("n".to_string()).cloned().unwrap_or_default().ok()
    }
    let mut router: Router<Ping> = Router::new();
    router.get("/ping", FnHandler::new(pong)).unwrap();
    router.get("/ping/(?P<n>[0-9]+)", FnHandler::new(echo)).unwrap();

    let r = route(&router, &Method::Get, "/ping", None, (), Arc::new(()));
    assert_eq!(r.status, 200);
    assert_eq!(r.body, "PONG");

    let r = route(&router, &Method::Get, "/ping/7", None, (), Arc::new(()));
    assert_eq!(r.status, 200);
    assert!(r.body.contains("7"));

    let r = route(&router, &Method::Post, "/ping", None, (), Arc::new(()));
    assert_eq!(r.status, 405);
}

#[test]
fn closure_handler_captures_its_state() {
    let greeting = String::from("hi ");
    let mut router = Router::new();
    router
        .get(
            "/(?P<who>[a-z]+)",
            FnHandler::new(move |_s: Arc<()>, ctx: Context<u8>| {
                let who = ctx.params.get_item("who".to_string()).cloned().unwrap_or_default();
                format!("{}{}{}", greeting, who, ctx.req).into_response()
            }),
        )
        .unwrap();
    let r = route(&router, &Method::Get, "/bob", None, 3u8, Arc::new(()));
    assert_eq!(r.body, "hi bob3");
}

#[test]
fn route_entry_is_built_from_template_and_method() {
    let h = Handler::new("/n/(?P<n>[0-9]+)", Method::Head, Tagged("n")).ok().unwrap();
    assert_eq!(h.method(), Method::Head);
    assert!(h.match_path("/n/1"));
    assert!(!h.match_path("/n/x"));
    assert_eq!(h.get_params("/n/1").get_item("n".to_string()), Some(&"1".to_string()));
    assert_eq!(h.invoke(Arc::new(()), Context::new(
        http_router::params::Query::new(None),
        http_router::params::Params::new(),
        (),
    )).body, "n");
    assert!(Handler::new("/n/(", Method::Head, Tagged("n")).is_err());
}

#[test]
fn make_service_routes_ping_with_an_id() {
    let router = make_service().ok().unwrap();
    assert_eq!(router.len(), 1);
    let m = router.get_handler(&Method::Get, "/ping/15", None).ok().unwrap();
    assert_eq!(m.param.get_item("id".to_string()), Some(&"15".to_string()));
    let r = route(&router, &Method::Get, "/ping/15", None, (), Arc::new(()));
    assert_eq!(r.status, 404);
    assert!(matches!(
        router.get_handler(&Method::Post, "/ping/15", None),
        Err(LookupError::MethodNotAllowed)
    ));
    assert!(matches!(
        router.get_handler(&Method::Get, "/ping/x", None),
        Err(LookupError::NotFound)
    ));
}

struct Counter(&'static str, std::sync::atomic::AtomicUsize);

impl HandlerTrait<(), ()> for Counter {
    fn invoke(&self, _s: Arc<()>, _ctx: Context<()>) -> Response {
        let n = self.1.fetch_add(1, std::sync::atomic::Ordering::SeqCst);
        format!("{}{}", self.0, n).into_response()
    }
}

#[test]
fn boxed_handlers_of_different_kinds_share_a_table() {
    let mut router: Router<Box<dyn HandlerTrait<(), ()>>> = Router::new();
    router.get("/tag", Box::new(Tagged("tagged"))).unwrap();
    router.get("/count", Box::new(Counter("c", std::sync::atomic::AtomicUsize::new(0)))).unwrap();
    router
        .get("/fn", Box::new(FnHandler::new(|_s: Arc<()>, _c: Context<()>| "closure".ok())))
        .unwrap();
    let call = |path: &str| route(&router, &Method::Get, path, None, (), Arc::new(())).body;
    assert_eq!(call("/tag"), "tagged");
    assert_eq!(call("/count"), "c0");
    assert_eq!(call("/count"), "c1");
    assert_eq!(call("/fn"), "closure");
}

#[test]
fn lookup_agrees_with_its_two_phases() {
    let mut router = Router::new();
    router.post("/x", Tagged("p")).unwrap();
    router.get("/(?P<any>[a-z]+)", Tagged("g1")).unwrap();
    router.get("/x", Tagged("g2")).unwrap();
    router.delete("/y", Tagged("d")).unwrap();
    let methods = [Method::Get, Method::Post, Method::Delete, Method::Put];
    for path in ["/x", "/y", "/z", "/1"] {
        for m in methods {
            let direct = router.get_handler(&m, path, None);
            let phased = match router.match_by_path(path) {
                None => Err(LookupError::NotFound),
                Some(found) => {
                    router.find_by_method(found, &m).ok_or(LookupError::MethodNotAllowed)
                }
            };
            match (direct, phased) {
                (Ok(a), Ok(b)) => assert!(std::ptr::eq(a.handler, b)),
                (Err(a), Err(b)) => assert_eq!(a, b),
                _ => panic!("lookup and its phases differ on {} {}", m.as_str(), path),
            }
        }
    }
}

#[test]
fn unlisted_method_is_not_allowed_on_a_routed_path() {
    let mut router = Router::new();
    router.get("/users/(?P<id>[0-9]+)", Tagged("user")).unwrap();
    router.post("/users", Tagged("new")).unwrap();
    let known = router.unlisted_method_response("/users/3");
    assert_eq!(known.status, 405);
    assert_eq!(known.body, "{\"status\":405,\"msg\":\"Method Not Allowed\"}");
    assert_eq!(known.content_type, Some("application/json".to_string()));
    let unknown = router.unlisted_method_response("/users/x");
    assert_eq!(unknown.status, 404);
    assert_eq!(unknown.body, "{\"status\":404,\"msg\":\"NOT FOUND\"}");
    let empty: Router<Tagged> = Router::new();
    assert_eq!(empty.unlisted_method_response("/users").status, 404);
}
