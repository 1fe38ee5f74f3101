use std::sync::Arc;

use http_router::handler::{Context, HandlerTrait};
use http_router::method::Method;
use http_router::response::{IntoResponse, Response};
use http_router::router::{route, Router};

struct EchoId;

impl HandlerTrait<(), usize> for EchoId {
    fn invoke(&self, _s: Arc<()>, ctx: Context<usize>) -> Response {
        let id = ctx.params.get_item("id".to_string()).cloned().unwrap_or_default();
        let q = ctx.query.get_item("n".to_string()).cloned().unwrap_or_default();
        format!("{}/{}/{}", id, q, ctx.req).into_response()
    }
}

#[test]
fn concurrent_dispatches_keep_their_own_parameters() {
    let mut router = Router::new();
    router.get("/users/(?P<id>[0-9]+)", EchoId).unwrap();
    router.get("/teams/(?P<id>[0-9]+)", EchoId).unwrap();
    let router = Arc::new(router);
    let svc = Arc::new(());
    let runtime = tokio::runtime::Builder::new_multi_thread().worker_threads(4).build().unwrap();
    let mut workers = Vec::new();
    for n in 0..8usize {
        let router = Arc::clone(&router);
        let svc = Arc::clone(&svc);
        workers.push(runtime.spawn(async move {
            for round in 0..50usize {
                let kind = if n % 2 == 0 { "users" } else { "teams" };
                let path = format!("/{}/{}", kind, n * 1000 + round);
                let query = format!("n={}", n);
                let r = route(&router, &Method::Get, &path, Some(&query), round, Arc::clone(&svc));
                assert_eq!(r.status, 200);
                assert_eq!(r.body, format!("{}/{}/{}", n * 1000 + round, n, round));
                tokio::task::yield_now().await;
            }
        }));
    }
    for w in workers {
        runtime.block_on(w).unwrap();
    }
    assert_eq!(router.len(), 2);
}
