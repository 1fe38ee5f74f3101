//! A ready-made table with one route, for trying a server out.

use vstd::prelude::*;
use std::sync::Arc;
use crate::method::Method;
use crate::pattern::{CompileError, template_compiles};
use crate::response::{Response, not_found_view, response_not_found};
use crate::handler::{Context, HandlerTrait, RouteView};
use crate::router::Router;

verus! {

/// A handler that answers every request with the 404 response.
#[derive(Debug)]
pub struct NotFoundHandler;

impl<S, R> HandlerTrait<S, R> for NotFoundHandler {
    open spec fn answers(&self, s: Arc<S>, ctx: Context<R>, response: Response) -> bool {
        response@ == not_found_view()
    }

    fn invoke(&self, s: Arc<S>, ctx: Context<R>) -> (response: Response) {
        response_not_found()
    }
}

/// The template of the one route of `make_service`.
pub open spec fn ping_template() -> Seq<char> {
    "/ping/(?P<id>[0-9]+)"@
}

/// A table with the single route `GET /ping/<id>`, whose handler answers
/// 404.
pub fn make_service() -> (r: Result<Router<NotFoundHandler>, CompileError>)
    ensures
        r is Ok <==> template_compiles(ping_template()),
        r matches Ok(router) ==> router@ == seq![
            RouteView { template: ping_template(), method: Method::Get, handler: NotFoundHandler },
        ],
        r matches Err(e) ==> e.template@ == ping_template(),
{
    let mut router = Router::new();
    match router.get("/ping/(?P<id>[0-9]+)", NotFoundHandler) {
        Ok(()) => {
            assert(router@ =~= seq![
                RouteView {
                    template: ping_template(),
                    method: Method::Get,
                    handler: NotFoundHandler,
                },
            ]);
            Ok(router)
        },
        Err(e) => Err(e),
    }
}

} // verus!
