//! Handlers: the calling convention that they share, the context that a
//! call is given, and the route that binds a handler to a method and a
//! pattern.

use vstd::prelude::*;
use std::marker::PhantomData;
use std::sync::Arc;
use crate::method::Method;
use crate::params::{Params, Query};
use crate::pattern::{CompileError, RoutePattern, template_compiles, template_matches, template_params};
use crate::response::Response;

verus! {

/// What a handler is given for one request: the query parameters, the
/// path parameters, and the request itself. It belongs to that one call.
pub struct Context<R> {
    pub query: Query,
    pub params: Params,
    pub req: R,
}

impl<R> Context<R> {
    /// Bundles the parameters of a request with the request.
    pub fn new(query: Query, params: Params, req: R) -> (ctx: Self)
        ensures
            ctx.query == query,
            ctx.params == params,
            ctx.req == req,
    {
        Self { query, params, req }
    }
}

/// The calling convention that every handler shares: it is given the
/// shared service and the context of one request, and always answers with
/// a response.
pub trait HandlerTrait<S, R> {
    /// Whether `response` is an answer that this handler gives to `ctx`.
    /// A handler that says nothing of its answers may give any.
    open spec fn answers(&self, s: Arc<S>, ctx: Context<R>, response: Response) -> bool {
        true
    }

    /// Handles one request.
    fn invoke(&self, s: Arc<S>, ctx: Context<R>) -> (response: Response)
        ensures
            self.answers(s, ctx, response),
    ;
}

/// A boxed handler is called as the handler in the box, so a table of
/// boxes can hold handlers of different kinds.
impl<S, R, H: HandlerTrait<S, R> + ?Sized> HandlerTrait<S, R> for Box<H> {
    open spec fn answers(&self, s: Arc<S>, ctx: Context<R>, response: Response) -> bool {
        (**self).answers(s, ctx, response)
    }

    fn invoke(&self, s: Arc<S>, ctx: Context<R>) -> (response: Response) {
        (**self).invoke(s, ctx)
    }
}

/// A closure or function as a handler. It can be called on every service
/// and context.
pub struct FnHandler<S, R, F: Fn(Arc<S>, Context<R>) -> Response> {
    f: F,
    accepts: PhantomData<(S, R)>,
}

impl<S, R, F: Fn(Arc<S>, Context<R>) -> Response> FnHandler<S, R, F> {
    #[verifier::type_invariant]
    spec fn total(&self) -> bool {
        forall|s: Arc<S>, ctx: Context<R>| call_requires(self.f, (s, ctx))
    }

    /// The function that is called.
    pub closed spec fn callee(&self) -> F {
        self.f
    }

    /// Wraps `f`, which must accept every service and context.
    pub fn new(f: F) -> (h: Self)
        requires
            forall|s: Arc<S>, ctx: Context<R>| call_requires(f, (s, ctx)),
        ensures
            h.callee() == f,
    {
        Self { f, accepts: PhantomData }
    }
}

impl<S, R, F: Fn(Arc<S>, Context<R>) -> Response> HandlerTrait<S, R> for FnHandler<S, R, F> {
    open spec fn answers(&self, s: Arc<S>, ctx: Context<R>, response: Response) -> bool {
        call_ensures(self.callee(), (s, ctx), response)
    }

    fn invoke(&self, s: Arc<S>, ctx: Context<R>) -> (response: Response) {
        proof {
            use_type_invariant(self);
        }
        (self.f)(s, ctx)
    }
}

/// One registered route: a pattern, a method and the handler to call.
pub struct Handler<H> {
    pattern: RoutePattern,
    method: Method,
    f: H,
}

/// What a route says: the template it was registered with, its method and
/// its handler.
pub struct RouteView<H> {
    pub template: Seq<char>,
    pub method: Method,
    pub handler: H,
}

impl<H> View for Handler<H> {
    type V = RouteView<H>;

    closed spec fn view(&self) -> RouteView<H> {
        RouteView { template: self.pattern.template(), method: self.method, handler: self.f }
    }
}

impl<H> Handler<H> {
    /// A route for `method` and the template `path`. It fails exactly on
    /// a template that does not compile.
    pub fn new(path: &str, method: Method, f: H) -> (r: Result<Self, CompileError>)
        ensures
            r is Ok <==> template_compiles(path@),
            r matches Ok(h) ==> h@ == (RouteView { template: path@, method, handler: f }),
            r matches Err(e) ==> e.template@ == path@,
    {
        match RoutePattern::new(path) {
            Ok(pattern) => Ok(Self { pattern, method, f }),
            Err(e) => Err(e),
        }
    }

    /// The method that the route was registered under.
    pub fn method(&self) -> (m: Method)
        ensures
            m == self@.method,
    {
        self.method
    }

    /// The pattern of the route.
    pub fn pattern(&self) -> (p: &RoutePattern)
        ensures
            p.template() == self@.template,
    {
        &self.pattern
    }

    /// The handler of the route.
    pub fn handler(&self) -> (f: &H)
        ensures
            *f == self@.handler,
    {
        &self.f
    }

    /// Whether the route's pattern matches the whole of `path`.
    pub fn match_path(&self, path: &str) -> (b: bool)
        ensures
            b == template_matches(self@.template, path@),
    {
        self.pattern.match_path(path)
    }

    /// The path parameters that the route's pattern yields on `path`;
    /// none where the path does not match.
    pub fn get_params(&self, path: &str) -> (params: Params)
        ensures
            params@ == template_params(self@.template, path@),
            !template_matches(self@.template, path@) ==> params@ == Map::<
                Seq<char>,
                Seq<char>,
            >::empty(),
    {
        self.pattern.get_params(path)
    }

    /// Calls the route's handler.
    pub fn invoke<S, R>(&self, s: Arc<S>, ctx: Context<R>) -> (response: Response) where
        H: HandlerTrait<S, R>,

        ensures
            self@.handler.answers(s, ctx, response),
    {
        self.f.invoke(s, ctx)
    }
}

} // verus!
